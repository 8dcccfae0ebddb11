//! Taking the images out of a statement's text.

use crate::text::{ascii_lower, chars_of, lower};
use vstd::prelude::*;

verus! {

/// The text starts with `start`, whatever the case of its ASCII letters.
pub open spec fn starts_ci(s: Seq<char>, start: Seq<char>) -> bool {
    s.len() >= start.len() && forall|i: int|
        0 <= i < start.len() ==> ascii_lower(#[trigger] s[i]) == start[i]
}

pub fn starts_with_ci(chars: &[char], at: usize, needle: &str) -> (r: bool)
    requires
        at <= chars.len(),
    ensures
        r == starts_ci(chars@.skip(at as int), needle@),
{
    let start = chars_of(needle);
    let ghost rest = chars@.skip(at as int);
    if start.len() > chars.len() - at {
        return false;
    }
    let mut i: usize = 0;
    while i < start.len()
        invariant
            i <= start.len(),
            at <= chars.len(),
            start@ == needle@,
            start.len() <= chars.len() - at,
            rest == chars@.skip(at as int),
            forall|j: int| 0 <= j < i ==> ascii_lower(#[trigger] rest[j]) == start@[j],
        decreases start.len() - i,
    {
        proof {
            assert(rest[i as int] == chars@[at + i]);
        }
        if lower(chars[at + i]) != start[i] {
            return false;
        }
        i += 1;
    }
    true
}

/// How long a tag is, up to its closing `>`; one within quotes does not close
/// it. `quote` is the quote that is open.
pub open spec fn tag_len(s: Seq<char>, quote: Option<char>) -> nat
    decreases s.len(),
{
    if s.len() == 0 {
        0
    } else {
        match quote {
            Some(q) => 1 + tag_len(
                s.skip(1),
                if s[0] == q {
                    None
                } else {
                    quote
                },
            ),
            None => if s[0] == '>' {
                1
            } else {
                1 + tag_len(
                    s.skip(1),
                    if s[0] == '"' || s[0] == '\'' {
                        Some(s[0])
                    } else {
                        None
                    },
                )
            },
        }
    }
}

pub proof fn tag_len_bound(s: Seq<char>, quote: Option<char>)
    ensures
        tag_len(s, quote) <= s.len(),
        s.len() > 0 ==> tag_len(s, quote) > 0,
    decreases s.len(),
{
    if s.len() > 0 {
        tag_len_bound(s.skip(1), None);
        tag_len_bound(s.skip(1), quote);
        tag_len_bound(s.skip(1), Some(s[0]));
    }
}

/// Where an image's data ends: at a quote, a closing bracket or a tag.
pub open spec fn ends_payload(c: char) -> bool {
    c == '"' || c == '\'' || c == ')' || c == '<'
}

/// How long an image's data is.
pub open spec fn payload_len(s: Seq<char>) -> nat
    decreases s.len(),
{
    if s.len() == 0 || ends_payload(s[0]) {
        0
    } else {
        1 + payload_len(s.skip(1))
    }
}

pub proof fn payload_len_bound(s: Seq<char>)
    ensures
        payload_len(s) <= s.len(),
    decreases s.len(),
{
    if s.len() > 0 {
        payload_len_bound(s.skip(1));
    }
}

pub open spec fn starts_image_tag(s: Seq<char>) -> bool {
    starts_ci(s, "<img"@)
}

pub open spec fn starts_image_data(s: Seq<char>) -> bool {
    starts_ci(s, "data:image"@)
}

/// Image data has at least the characters it is known by.
pub proof fn image_data_has_payload(s: Seq<char>)
    requires
        starts_image_data(s),
    ensures
        payload_len(s) > 0,
{
    reveal_strlit("data:image");
    assert(ascii_lower(s[0]) == 'd');
}

/// A text without its `<img>` tags and without its `data:image` data.
pub open spec fn stripped(s: Seq<char>) -> Seq<char>
    decreases s.len(),
{
    proof {
        tag_len_bound(s, None);
        payload_len_bound(s);
        if starts_image_data(s) {
            image_data_has_payload(s);
        }
    }
    if s.len() == 0 {
        s
    } else if starts_image_tag(s) {
        stripped(s.skip(tag_len(s, None) as int))
    } else if starts_image_data(s) {
        stripped(s.skip(payload_len(s) as int))
    } else {
        seq![s[0]] + stripped(s.skip(1))
    }
}

/// Takes the images out of a text.
pub fn strip_image_chars(chars: &[char]) -> (r: Vec<char>)
    ensures
        r@ == stripped(chars@),
{
    let mut out: Vec<char> = Vec::new();
    let mut i: usize = 0;
    proof {
        assert(chars@.skip(0) =~= chars@);
    }
    while i < chars.len()
        invariant
            i <= chars.len(),
            stripped(chars@) == out@ + stripped(chars@.skip(i as int)),
        decreases chars.len() - i,
    {
        let ghost start = i as int;
        let ghost rest = chars@.skip(start);
        proof {
            tag_len_bound(rest, None);
            payload_len_bound(rest);
        }
        if starts_with_ci(chars, i, "<img") {
            let mut quote: Option<char> = None;
            let mut open = true;
            while i < chars.len() && open
                invariant
                    start <= i <= chars.len(),
                    rest == chars@.skip(start),
                    tag_len(rest, None) == (i - start) + if open {
                        tag_len(chars@.skip(i as int), quote)
                    } else {
                        0
                    },
                decreases chars.len() - i,
            {
                let c = chars[i];
                proof {
                    assert(chars@.skip(i as int).skip(1) =~= chars@.skip(i as int + 1));
                }
                i += 1;
                match quote {
                    Some(q) => {
                        if c == q {
                            quote = None;
                        }
                    },
                    None => {
                        if c == '"' || c == '\'' {
                            quote = Some(c);
                        } else if c == '>' {
                            open = false;
                        }
                    },
                }
            }
            proof {
                assert(rest.skip(i - start) =~= chars@.skip(i as int));
            }
        } else if starts_with_ci(chars, i, "data:image") {
            proof {
                image_data_has_payload(rest);
            }
            while i < chars.len() && !(chars[i] == '"' || chars[i] == '\'' || chars[i] == ')'
                || chars[i] == '<')
                invariant
                    start <= i <= chars.len(),
                    rest == chars@.skip(start),
                    payload_len(rest) == (i - start) + payload_len(chars@.skip(i as int)),
                decreases chars.len() - i,
            {
                proof {
                    assert(chars@.skip(i as int).skip(1) =~= chars@.skip(i as int + 1));
                }
                i += 1;
            }
            proof {
                assert(rest.skip(i - start) =~= chars@.skip(i as int));
            }
        } else {
            let ghost before = out@;
            out.push(chars[i]);
            i += 1;
            proof {
                assert(rest.skip(1) =~= chars@.skip(i as int));
                assert(out@ + stripped(rest.skip(1)) =~= before + (seq![rest[0]] + stripped(
                    rest.skip(1),
                )));
            }
        }
    }
    proof {
        assert(out@ + stripped(chars@.skip(i as int)) =~= out@);
    }
    out
}

/// A text in which no image tag and no image data starts is left as it is.
pub proof fn text_without_images_stays(s: Seq<char>)
    requires
        forall|i: int|
            0 <= i < s.len() ==> !starts_image_tag(#[trigger] s.skip(i)) && !starts_image_data(
                s.skip(i),
            ),
    ensures
        stripped(s) == s,
    decreases s.len(),
{
    if s.len() > 0 {
        assert(s.skip(0) =~= s);
        let t = s.skip(1);
        assert forall|i: int| 0 <= i < t.len() implies !starts_image_tag(#[trigger] t.skip(i))
            && !starts_image_data(t.skip(i)) by {
            assert(t.skip(i) =~= s.skip(i + 1));
        }
        text_without_images_stays(t);
        assert(seq![s[0]] + t =~= s);
    }
}

} // verus!
