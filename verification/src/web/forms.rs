//! Where forms lead: uploads, banners and redirects.

use crate::parse::{refusal_text, ParseError, ParseErrorView};
use crate::text::{chars_of, copy, same_str, string_of, trim, trimmed};
use crate::web::markup::{esc, escaped};
use crate::web::money::{money, tr_money};
use vstd::prelude::*;
use vstd::string::StringExecFns;

verus! {

/// The largest upload, in bytes.
pub const IMPORT_LIMIT: usize = 8388608;

/// Why an upload was not imported.
#[derive(Debug)]
pub enum ImportProblem {
    NoFile,
    /// The upload broke off, or it is over the limit.
    Upload,
    Parse(String),
    Reconcile {
        previous: i64,
        spend: i64,
        fees: i64,
        credits: i64,
        computed: i64,
        stated: i64,
    },
}

pub ghost enum ImportProblemView {
    NoFile,
    Upload,
    Parse(Seq<char>),
    Reconcile {
        previous: i64,
        spend: i64,
        fees: i64,
        credits: i64,
        computed: i64,
        stated: i64,
    },
}

impl View for ImportProblem {
    type V = ImportProblemView;

    open spec fn view(&self) -> ImportProblemView {
        match *self {
            ImportProblem::NoFile => ImportProblemView::NoFile,
            ImportProblem::Upload => ImportProblemView::Upload,
            ImportProblem::Parse(reason) => ImportProblemView::Parse(reason@),
            ImportProblem::Reconcile { previous, spend, fees, credits, computed, stated } =>
                ImportProblemView::Reconcile { previous, spend, fees, credits, computed, stated },
        }
    }
}

/// The problem that a refused statement is shown as: a footer that does not
/// agree with its numbers, anything else with its words.
pub open spec fn problem_of(e: ParseErrorView) -> ImportProblemView {
    match e {
        ParseErrorView::Reconcile {
            previous_minor,
            sum_debit_minor,
            fees_minor,
            sum_credit_minor,
            computed_minor,
            period_debt_minor,
        } => ImportProblemView::Reconcile {
            previous: previous_minor,
            spend: sum_debit_minor,
            fees: fees_minor,
            credits: sum_credit_minor,
            computed: computed_minor,
            stated: period_debt_minor,
        },
        other => ImportProblemView::Parse(refusal_text(other)),
    }
}

/// Makes the problem of a refused statement.
pub fn import_problem(e: &ParseError) -> (r: ImportProblem)
    ensures
        r@ == problem_of(e@),
{
    match e {
        ParseError::Reconcile {
            previous_minor,
            sum_debit_minor,
            fees_minor,
            sum_credit_minor,
            computed_minor,
            period_debt_minor,
        } => ImportProblem::Reconcile {
            previous: *previous_minor,
            spend: *sum_debit_minor,
            fees: *fees_minor,
            credits: *sum_credit_minor,
            computed: *computed_minor,
            stated: *period_debt_minor,
        },
        _ => ImportProblem::Parse(e.message()),
    }
}

/// A row of the table that shows how a footer does not agree.
pub open spec fn recon_row(label: Seq<char>, minor: i64) -> Seq<char> {
    "<tr><td>"@ + label + "</td><td class=\"num\">"@ + money(minor as int) + "</td></tr>"@
}

/// A banner.
pub open spec fn problem_box(body: Seq<char>) -> Seq<char> {
    "<div class=\"banner banner-problem\">"@ + body + "</div>"@
}

/// The banner of a problem. A footer that does not agree shows all its
/// numbers.
pub open spec fn problem_text(problem: ImportProblemView) -> Seq<char> {
    problem_box(
        match problem {
            ImportProblemView::NoFile => "Dosya seçilmedi."@,
            ImportProblemView::Upload => "Yükleme okunamadı ya da 8 MB sınırını aştı."@,
            ImportProblemView::Parse(reason) => "Ekstre çözülemedi: "@ + escaped(reason),
            ImportProblemView::Reconcile { previous, spend, fees, credits, computed, stated } =>
                RECON_START@ + recon_row("Önceki bakiye (ÖNCEKİ AYDAN DEVİR)"@, previous)
                + recon_row("+ Harcamalarınız"@, spend) + recon_row(
                "+ Ceza ücret ve kesintiler"@,
                fees,
            ) + recon_row("− Ödemeleriniz"@, credits) + recon_row(
                "= Hesaplanan dönem borcu"@,
                computed,
            ) + recon_row("Ekstrenin yazdığı dönem borcu"@, stated) + "</tbody></table>"@,
        },
    )
}

pub const RECON_START: &'static str =
    "Uzlaşma tutmuyor — ekstrenin dip özeti işlem satırlarıyla \
     uyuşmuyor. Hiçbir kayıt yazılmadı.\
     <table class=\"recon num\"><tbody>";

fn row(label: &str, minor: i64) -> (r: String)
    ensures
        r@ == recon_row(label@, minor),
{
    let mut text = copy("<tr><td>");
    text.append(label);
    text.append("</td><td class=\"num\">");
    text.append(tr_money(minor).as_str());
    text.append("</td></tr>");
    text
}

fn boxed(body: &str) -> (r: String)
    ensures
        r@ == problem_box(body@),
{
    let mut text = copy("<div class=\"banner banner-problem\">");
    text.append(body);
    text.append("</div>");
    text
}

/// Writes the banner of a problem.
pub fn problem_banner(problem: &ImportProblem) -> (r: String)
    ensures
        r@ == problem_text(problem@),
{
    match problem {
        ImportProblem::NoFile => boxed("Dosya seçilmedi."),
        ImportProblem::Upload => boxed("Yükleme okunamadı ya da 8 MB sınırını aştı."),
        ImportProblem::Parse(reason) => {
            let mut body = copy("Ekstre çözülemedi: ");
            body.append(esc(reason.as_str()).as_str());
            boxed(body.as_str())
        },
        ImportProblem::Reconcile { previous, spend, fees, credits, computed, stated } => {
            let mut body = copy(RECON_START);
            body.append(row("Önceki bakiye (ÖNCEKİ AYDAN DEVİR)", *previous).as_str());
            body.append(row("+ Harcamalarınız", *spend).as_str());
            body.append(row("+ Ceza ücret ve kesintiler", *fees).as_str());
            body.append(row("− Ödemeleriniz", *credits).as_str());
            body.append(row("= Hesaplanan dönem borcu", *computed).as_str());
            body.append(row("Ekstrenin yazdığı dönem borcu", *stated).as_str());
            body.append("</tbody></table>");
            boxed(body.as_str())
        },
    }
}

pub const BANNER_KNOWN: &'static str =
    "<div class=\"banner banner-ok\">Bu ekstre zaten yüklü — aynı \
     özetli dosya hiçbir kayıt yazmaz.</div>";

pub const BANNER_IMPORTED: &'static str =
    "<div class=\"banner banner-ok\">Ekstre yüklendi. Etiketlenmemiş \
     işlemleri <a href=\"/inbox\">gelen kutusunda</a> etiketleyin.</div>";

/// The banner after an import, by the code in the URL.
pub fn import_banner(code: &str) -> (r: &'static str)
    ensures
        r@ == if code@ == "dupe"@ {
            BANNER_KNOWN@
        } else {
            BANNER_IMPORTED@
        },
{
    if same_str(code, "dupe") {
        BANNER_KNOWN
    } else {
        BANNER_IMPORTED
    }
}

/// The banner of the inbox, by the code in the URL.
pub fn inbox_banner(code: &str) -> (r: &'static str)
    ensures
        r@ == if code@ == "isim"@ {
            "<div class=\"banner banner-problem\">Payee adı boş olamaz.</div>"@
        } else {
            "<div class=\"banner banner-problem\">Etiket depoya yazılamadı.</div>"@
        },
{
    if same_str(code, "isim") {
        "<div class=\"banner banner-problem\">Payee adı boş olamaz.</div>"
    } else {
        "<div class=\"banner banner-problem\">Etiket depoya yazılamadı.</div>"
    }
}

/// An upload as far as it has come: the file that was read last, and the one
/// that is being read.
#[derive(Debug)]
pub struct Upload {
    pub file: Option<Vec<u8>>,
    pub part: Vec<u8>,
}

pub ghost struct UploadView {
    pub file: Option<Seq<u8>>,
    pub part: Seq<u8>,
}

impl View for Upload {
    type V = UploadView;

    open spec fn view(&self) -> UploadView {
        UploadView {
            file: match self.file {
                Some(bytes) => Some(bytes@),
                None => None,
            },
            part: self.part@,
        }
    }
}

impl Upload {
    /// Nothing has been read.
    pub fn new() -> (r: Upload)
        ensures
            r@ == (UploadView { file: None, part: Seq::empty() }),
    {
        let upload = Upload { file: None, part: Vec::new() };
        proof {
            assert(upload.part@ =~= Seq::<u8>::empty());
        }
        upload
    }

    /// A field begins. It is a file where it has a file name; a field without
    /// one is passed over.
    pub fn begin(&mut self, has_file_name: bool) -> (r: bool)
        ensures
            r == has_file_name,
            final(self)@ == if has_file_name {
                UploadView { part: Seq::empty(), ..old(self)@ }
            } else {
                old(self)@
            },
    {
        if has_file_name {
            self.part = Vec::new();
            proof {
                assert(self.part@ =~= Seq::<u8>::empty());
            }
        }
        has_file_name
    }

    /// More of the file; `false`, and nothing taken, where it is over the
    /// limit.
    pub fn take(&mut self, chunk: &[u8]) -> (r: bool)
        ensures
            r == (old(self)@.part.len() + chunk@.len() <= IMPORT_LIMIT),
            final(self)@ == if r {
                UploadView { part: old(self)@.part + chunk@, ..old(self)@ }
            } else {
                old(self)@
            },
    {
        if self.part.len() > IMPORT_LIMIT || chunk.len() > IMPORT_LIMIT - self.part.len() {
            return false;
        }
        self.part.extend_from_slice(chunk);
        proof {
            assert(self.part@ =~= old(self)@.part + chunk@);
        }
        true
    }

    /// The file is over.
    pub fn end(&mut self)
        ensures
            final(self)@ == (UploadView { file: Some(old(self)@.part), part: Seq::empty() }),
    {
        let mut part: Vec<u8> = Vec::new();
        std::mem::swap(&mut part, &mut self.part);
        self.file = Some(part);
        proof {
            assert(self.part@ =~= Seq::<u8>::empty());
        }
    }

    /// The upload is over: its file, or the problem that there is none.
    pub fn finish(self) -> (r: Result<Vec<u8>, ImportProblem>)
        ensures
            match r {
                Ok(bytes) => self@.file == Some(bytes@),
                Err(problem) => self@.file is None && problem@ == ImportProblemView::NoFile,
            },
    {
        match self.file {
            Some(bytes) => Ok(bytes),
            None => Err(ImportProblem::NoFile),
        }
    }
}

/// Where an import leads: `None` for one that failed, otherwise whether it was
/// a duplicate.
pub fn import_target(duplicate: Option<bool>) -> (r: &'static str)
    ensures
        r@ == match duplicate {
            Some(true) => "/import?ok=dupe"@,
            Some(false) => "/import?ok=new"@,
            None => "/import?error=depo"@,
        },
{
    match duplicate {
        Some(true) => "/import?ok=dupe",
        Some(false) => "/import?ok=new",
        None => "/import?error=depo",
    }
}

/// The name that a label form gives; none where it is blank.
pub fn label_name(payee: &str) -> (r: Option<String>)
    ensures
        match r {
            Some(name) => name@ == trim(payee@) && name@.len() > 0,
            None => trim(payee@).len() == 0,
        },
{
    let chars = chars_of(payee);
    let name = trimmed(&chars);
    if name.len() == 0 {
        None
    } else {
        Some(string_of(name))
    }
}

/// Where a label form leads: whether it gave a name, and whether the label was
/// written.
pub fn label_target(named: bool, written: bool) -> (r: &'static str)
    ensures
        r@ == if !named {
            "/inbox?error=isim"@
        } else if written {
            "/inbox"@
        } else {
            "/inbox?error=depo"@
        },
{
    if !named {
        "/inbox?error=isim"
    } else if written {
        "/inbox"
    } else {
        "/inbox?error=depo"
    }
}

/// Where a category form leads.
pub fn category_target(written: bool) -> (r: &'static str)
    ensures
        r@ == if written {
            "/payees"@
        } else {
            "/payees?error=depo"@
        },
{
    if written {
        "/payees"
    } else {
        "/payees?error=depo"
    }
}

} // verus!
