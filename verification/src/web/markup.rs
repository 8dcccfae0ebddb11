//! Text in markup, and bars as an image.

use crate::number::{append_int, int_text};
use crate::text::copy;
use vstd::prelude::*;
use vstd::string::StringExecFns;

verus! {

/// A character as markup has it.
pub open spec fn escaped_char(c: char) -> Seq<char> {
    if c == '&' {
        "&amp;"@
    } else if c == '<' {
        "&lt;"@
    } else if c == '>' {
        "&gt;"@
    } else if c == '"' {
        "&quot;"@
    } else {
        seq![c]
    }
}

/// A text as markup has it.
pub open spec fn escaped(s: Seq<char>) -> Seq<char>
    decreases s.len(),
{
    if s.len() == 0 {
        Seq::empty()
    } else {
        escaped(s.drop_last()) + escaped_char(s.last())
    }
}

/// Writes a text so that markup shows it as it is.
pub fn esc(raw: &str) -> (r: String)
    ensures
        r@ == escaped(raw@),
{
    let chars = crate::text::chars_of(raw);
    let ghost all = raw@;
    let mut out = String::new();
    let mut i: usize = 0;
    proof {
        assert(out@ =~= Seq::<char>::empty());
    }
    while i < chars.len()
        invariant
            i <= chars.len(),
            chars@ == all,
            out@ == escaped(all.take(i as int)),
        decreases chars.len() - i,
    {
        proof {
            assert(all.take(i as int + 1).drop_last() =~= all.take(i as int));
        }
        let ghost done = out@;
        if chars[i] == '&' {
            out.append("&amp;");
        } else if chars[i] == '<' {
            out.append("&lt;");
        } else if chars[i] == '>' {
            out.append("&gt;");
        } else if chars[i] == '"' {
            out.append("&quot;");
        } else {
            out.push(chars[i]);
            proof {
                assert(out@ =~= done + seq![chars@[i as int]]);
            }
        }
        i += 1;
    }
    proof {
        assert(all.take(all.len() as int) =~= all);
    }
    out
}

/// Escaped text opens and closes no tag and no attribute.
pub proof fn escaped_text_is_no_markup(s: Seq<char>)
    ensures
        forall|i: int|
            0 <= i < escaped(s).len() ==> (#[trigger] escaped(s)[i]) != '<' && escaped(s)[i] != '>'
                && escaped(s)[i] != '"',
    decreases s.len(),
{
    reveal_strlit("&amp;");
    reveal_strlit("&lt;");
    reveal_strlit("&gt;");
    reveal_strlit("&quot;");
    if s.len() > 0 {
        let before = escaped(s.drop_last());
        let last = escaped_char(s.last());
        escaped_text_is_no_markup(s.drop_last());
        assert forall|i: int| 0 <= i < escaped(s).len() implies (#[trigger] escaped(s)[i]) != '<'
            && escaped(s)[i] != '>' && escaped(s)[i] != '"' by {
            if i < before.len() {
                assert(escaped(s)[i] == before[i]);
            } else {
                assert(escaped(s)[i] == last[i - before.len()]);
            }
        }
    }
}

/// One bar: its label, its value, the value in words, the tip and the colour.
pub struct Bar {
    pub label: String,
    pub minor: i64,
    pub text: String,
    pub title: String,
    pub color: String,
}

#[verifier::ext_equal]
pub ghost struct BarView {
    pub label: Seq<char>,
    pub minor: i64,
    pub text: Seq<char>,
    pub title: Seq<char>,
    pub color: Seq<char>,
}

impl View for Bar {
    type V = BarView;

    open spec fn view(&self) -> BarView {
        BarView {
            label: self.label@,
            minor: self.minor,
            text: self.text@,
            title: self.title@,
            color: self.color@,
        }
    }
}

pub open spec fn bar_views(bars: Seq<Bar>) -> Seq<BarView> {
    Seq::new(bars.len(), |i: int| bars[i]@)
}

/// The largest value of bars, and 1 at least.
pub open spec fn top_of(bars: Seq<BarView>) -> int
    decreases bars.len(),
{
    if bars.len() == 0 {
        1
    } else if bars.last().minor > top_of(bars.drop_last()) {
        bars.last().minor as int
    } else {
        top_of(bars.drop_last())
    }
}

/// The length of a bar, of which the largest is `full` long: 2 at least.
pub open spec fn bar_len(minor: int, full: int, top: int) -> int {
    let len = minor * full / top;
    if len < 2 {
        2
    } else {
        len
    }
}

/// A bar that lies: label, bar and value in row `i`.
pub open spec fn lying_bar(bar: BarView, i: int, top: int) -> Seq<char> {
    "<g><title>"@ + escaped(bar.title)
        + "</title><text class=\"chart-label\" x=\"0\" y=\""@ + int_text(i * 26 + 17) + "\">"@
        + escaped(bar.label) + "</text><rect x=\"176\" y=\""@ + int_text(i * 26 + 5)
        + "\" width=\""@ + int_text(bar_len(bar.minor as int, 350, top))
        + "\" height=\"16\" rx=\"4\" fill=\""@ + escaped(bar.color)
        + "\"></rect><text class=\"chart-value\" x=\"638\" y=\""@ + int_text(i * 26 + 17)
        + "\" text-anchor=\"end\">"@ + escaped(bar.text) + "</text></g>"@
}

/// A bar that stands: bar, value and label in column `i`.
pub open spec fn standing_bar(bar: BarView, i: int, top: int) -> Seq<char> {
    let len = bar_len(bar.minor as int, 120, top);
    "<g><title>"@ + escaped(bar.title) + "</title><rect x=\""@ + int_text(i * 56 + 15)
        + "\" y=\""@ + int_text(140 - len) + "\" width=\"26\" height=\""@ + int_text(len)
        + "\" rx=\"4\" fill=\""@ + escaped(bar.color)
        + "\"></rect><text class=\"chart-value\" x=\""@ + int_text(i * 56 + 28) + "\" y=\""@
        + int_text(140 - len - 5) + "\" text-anchor=\"middle\">"@ + escaped(bar.text)
        + "</text><text class=\"chart-label\" x=\""@ + int_text(i * 56 + 28)
        + "\" y=\"158\" text-anchor=\"middle\">"@ + escaped(bar.label) + "</text></g>"@
}

/// The first `n` bars, one after the other.
pub open spec fn bars_text(bars: Seq<BarView>, vertical: bool, n: int) -> Seq<char>
    decreases n,
{
    if n <= 0 {
        Seq::empty()
    } else {
        bars_text(bars, vertical, n - 1) + if vertical {
            standing_bar(bars[n - 1], n - 1, top_of(bars))
        } else {
            lying_bar(bars[n - 1], n - 1, top_of(bars))
        }
    }
}

/// Bars as an image; none for no bars. The size of the drawing stands as text
/// behind the start tag.
pub open spec fn bars_image(bars: Seq<BarView>, vertical: bool) -> Seq<char> {
    if bars.len() == 0 {
        Seq::empty()
    } else {
        (if vertical {
            IMAGE_START@ + " viewBox=\"0 0 "@ + int_text(bars.len() as int * 56) + " 170\">"@
        } else {
            IMAGE_START@ + " viewBox=\"0 0 640 "@ + int_text(bars.len() as int * 26) + "\">"@
        }) + bars_text(bars, vertical, bars.len() as int) + "</svg>"@
    }
}

pub const IMAGE_START: &'static str =
    "<svg class=\"chart\" preserveAspectRatio=\"xMinYMin meet\" role=\"img\">";

/// 64 bits hold what drawing the bars computes.
pub open spec fn bars_fit(bars: Seq<BarView>, vertical: bool) -> bool {
    &&& bars.len() * if vertical {
        56int
    } else {
        26
    } <= i64::MAX
    &&& forall|i: int|
        0 <= i < bars.len() ==> i64::MIN <= (#[trigger] bars[i]).minor * if vertical {
            120int
        } else {
            350
        } <= i64::MAX
}

/// Whether 64 bits hold what drawing the bars computes.
pub fn can_draw(bars: &[Bar], vertical: bool) -> (r: bool)
    ensures
        r == bars_fit(bar_views(bars@), vertical),
{
    let ghost all = bar_views(bars@);
    let slot: u128 = if vertical {
        56
    } else {
        26
    };
    if bars.len() as u128 * slot > i64::MAX as u128 {
        return false;
    }
    let full: i64 = if vertical {
        120
    } else {
        350
    };
    let mut i: usize = 0;
    while i < bars.len()
        invariant
            i <= bars.len(),
            all == bar_views(bars@),
            full == if vertical {
                120int
            } else {
                350
            },
            forall|j: int|
                0 <= j < i ==> i64::MIN <= (#[trigger] all[j]).minor * full <= i64::MAX,
        decreases bars.len() - i,
    {
        proof {
            assert(all[i as int] == bars@[i as int]@);
        }
        if bars[i].minor.checked_mul(full).is_none() {
            return false;
        }
        i += 1;
    }
    true
}

fn top(bars: &[Bar]) -> (r: i64)
    ensures
        r == top_of(bar_views(bars@)),
        r >= 1,
        forall|i: int| 0 <= i < bars.len() ==> (#[trigger] bars@[i]).minor <= r,
{
    let ghost all = bar_views(bars@);
    let mut top: i64 = 1;
    let mut i: usize = 0;
    while i < bars.len()
        invariant
            i <= bars.len(),
            all == bar_views(bars@),
            top >= 1,
            top == top_of(all.take(i as int)),
            forall|j: int| 0 <= j < i ==> (#[trigger] bars@[j]).minor <= top,
        decreases bars.len() - i,
    {
        proof {
            assert(all.take(i as int + 1).drop_last() =~= all.take(i as int));
            assert(all.take(i as int + 1).last() == bars@[i as int]@);
        }
        if bars[i].minor > top {
            top = bars[i].minor;
        }
        i += 1;
    }
    proof {
        assert(all.take(all.len() as int) =~= all);
    }
    top
}

fn length(minor: i64, full: i64, top: i64) -> (r: i64)
    requires
        minor <= top,
        top >= 1,
        2 <= full <= 350,
        i64::MIN <= minor * full <= i64::MAX,
    ensures
        r == bar_len(minor as int, full as int, top as int),
        2 <= r <= full,
{
    if minor <= 0 {
        proof {
            assert(minor * full <= 0) by (nonlinear_arith)
                requires
                    minor <= 0,
                    full >= 2,
            ;
            assert(minor * full / top as int <= 0) by (nonlinear_arith)
                requires
                    minor * full <= 0,
                    top >= 1,
            ;
        }
        return 2;
    }
    let len = minor * full / top;
    proof {
        assert(len <= full) by (nonlinear_arith)
            requires
                0 < minor <= top,
                full >= 2,
                len == minor * full / top as int,
        ;
    }
    if len < 2 {
        2
    } else {
        len
    }
}

fn lying(bar: &Bar, i: i64, top: i64) -> (r: String)
    requires
        0 <= i,
        i * 26 + 17 <= i64::MAX,
        bar.minor <= top,
        top >= 1,
        i64::MIN <= bar.minor * 350 <= i64::MAX,
    ensures
        r@ == lying_bar(bar@, i as int, top as int),
{
    let y = i * 26;
    let mut g = copy("<g><title>");
    g.append(esc(bar.title.as_str()).as_str());
    g.append("</title><text class=\"chart-label\" x=\"0\" y=\"");
    append_int(&mut g, y + 17);
    g.append("\">");
    g.append(esc(bar.label.as_str()).as_str());
    g.append("</text><rect x=\"176\" y=\"");
    append_int(&mut g, y + 5);
    g.append("\" width=\"");
    append_int(&mut g, length(bar.minor, 350, top));
    g.append("\" height=\"16\" rx=\"4\" fill=\"");
    g.append(esc(bar.color.as_str()).as_str());
    g.append("\"></rect><text class=\"chart-value\" x=\"638\" y=\"");
    append_int(&mut g, y + 17);
    g.append("\" text-anchor=\"end\">");
    g.append(esc(bar.text.as_str()).as_str());
    g.append("</text></g>");
    g
}

fn standing(bar: &Bar, i: i64, top: i64) -> (r: String)
    requires
        0 <= i,
        i * 56 + 28 <= i64::MAX,
        bar.minor <= top,
        top >= 1,
        i64::MIN <= bar.minor * 120 <= i64::MAX,
    ensures
        r@ == standing_bar(bar@, i as int, top as int),
{
    let x = i * 56;
    let len = length(bar.minor, 120, top);
    let y: i64 = 140 - len;
    let mut g = copy("<g><title>");
    g.append(esc(bar.title.as_str()).as_str());
    g.append("</title><rect x=\"");
    append_int(&mut g, x + 15);
    g.append("\" y=\"");
    append_int(&mut g, y);
    g.append("\" width=\"26\" height=\"");
    append_int(&mut g, len);
    g.append("\" rx=\"4\" fill=\"");
    g.append(esc(bar.color.as_str()).as_str());
    g.append("\"></rect><text class=\"chart-value\" x=\"");
    append_int(&mut g, x + 28);
    g.append("\" y=\"");
    append_int(&mut g, y - 5);
    g.append("\" text-anchor=\"middle\">");
    g.append(esc(bar.text.as_str()).as_str());
    g.append("</text><text class=\"chart-label\" x=\"");
    append_int(&mut g, x + 28);
    g.append("\" y=\"158\" text-anchor=\"middle\">");
    g.append(esc(bar.label.as_str()).as_str());
    g.append("</text></g>");
    g
}

/// Draws bars.
pub fn svg_bars(bars: &[Bar], vertical: bool) -> (r: String)
    requires
        bars_fit(bar_views(bars@), vertical),
    ensures
        r@ == bars_image(bar_views(bars@), vertical),
{
    let ghost all = bar_views(bars@);
    if bars.len() == 0 {
        let none = String::new();
        proof {
            assert(none@ =~= Seq::<char>::empty());
        }
        return none;
    }
    let top = top(bars);
    let count = bars.len() as i64;
    let mut out = copy(IMAGE_START);
    if vertical {
        out.append(" viewBox=\"0 0 ");
        append_int(&mut out, count * 56);
        out.append(" 170\">");
    } else {
        out.append(" viewBox=\"0 0 640 ");
        append_int(&mut out, count * 26);
        out.append("\">");
    }
    let ghost head = out@;
    let mut i: usize = 0;
    proof {
        assert(out@ =~= head + bars_text(all, vertical, 0));
    }
    while i < bars.len()
        invariant
            i <= bars.len(),
            all == bar_views(bars@),
            bars_fit(all, vertical),
            top == top_of(all),
            top >= 1,
            forall|j: int| 0 <= j < bars.len() ==> (#[trigger] bars@[j]).minor <= top,
            out@ == head + bars_text(all, vertical, i as int),
        decreases bars.len() - i,
    {
        let bar = &bars[i];
        let ghost done = out@;
        proof {
            assert(all[i as int] == bar@);
            assert((i + 1) * 56 <= all.len() * 56 && (i + 1) * 26 <= all.len() * 26);
        }
        let g = if vertical {
            standing(bar, i as i64, top)
        } else {
            lying(bar, i as i64, top)
        };
        out.append(g.as_str());
        proof {
            assert(out@ =~= head + bars_text(all, vertical, i as int + 1));
        }
        i += 1;
    }
    out.append("</svg>");
    out
}

} // verus!
