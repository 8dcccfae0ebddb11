//! The command line.

use crate::number::{dec_chars, int_text};
use crate::parse::{opt_text, StatementHead, StatementHeadView};
use crate::store::import::{ImportReport, ImportReportView};
use crate::text::{copy, same_str, string_of, views};
use crate::web::money::{money, tr_money};
use vstd::prelude::*;
use vstd::string::StringExecFns;

verus! {

pub const USAGE: &'static str =
    "\
budget-web — Ziraat Katılım harcama takibi

KULLANIM:
  budget-web                              sunucuyu config/budget.toml ile başlatır
  budget-web import --user <sub> <DOSYA>  ekstreyi o kişinin verisine yazar, rapor basar
  budget-web help                         bu yardım
";

/// What the program is asked to do.
#[derive(Debug, Clone, Copy, PartialEq, Eq, Structural)]
pub enum Command {
    Serve,
    Help,
    Import,
    Unknown,
}

/// The command that the arguments behind the program's name give.
pub open spec fn command_in(args: Seq<Seq<char>>) -> Command {
    if args.len() == 0 {
        Command::Serve
    } else if args[0] == "--help"@ || args[0] == "-h"@ || args[0] == "help"@ {
        Command::Help
    } else if args[0] == "import"@ {
        Command::Import
    } else {
        Command::Unknown
    }
}

/// Reads the command.
pub fn command(args: &[String]) -> (r: Command)
    ensures
        r == command_in(views(args@)),
{
    if args.len() == 0 {
        return Command::Serve;
    }
    let word = args[0].as_str();
    proof {
        assert(views(args@)[0] == word@);
    }
    if same_str(word, "--help") || same_str(word, "-h") || same_str(word, "help") {
        Command::Help
    } else if same_str(word, "import") {
        Command::Import
    } else {
        Command::Unknown
    }
}

/// How the program came to its end.
#[derive(Debug, Clone, Copy, PartialEq, Eq, Structural)]
pub enum Ending {
    /// It did what it was asked to.
    Done,
    UnknownCommand,
    BadArguments,
    BadConfig,
    /// A file that it needs cannot be read.
    UnreadableFile,
    /// The statement was refused.
    BadStatement,
    /// The store does not open, or failed.
    StoreFailed,
}

/// The exit code of an ending: 1 where the store failed, 2 where what the
/// program was given is refused.
pub open spec fn code_of(ending: Ending) -> i32 {
    match ending {
        Ending::Done => 0,
        Ending::StoreFailed => 1,
        _ => 2,
    }
}

/// The exit code of an ending.
pub fn exit_code(ending: Ending) -> (r: i32)
    ensures
        r == code_of(ending),
{
    match ending {
        Ending::Done => 0,
        Ending::StoreFailed => 1,
        Ending::UnknownCommand | Ending::BadArguments | Ending::BadConfig
        | Ending::UnreadableFile | Ending::BadStatement => 2,
    }
}

/// What an import is asked to do: for whom, and with which files.
#[verifier::ext_equal]
pub ghost struct ImportArgsView {
    pub user: Option<Seq<char>>,
    pub paths: Seq<Seq<char>>,
}

/// The arguments of an import, from one on; `None` where `--user` has no
/// value. The last user counts.
pub open spec fn import_args_from(
    args: Seq<Seq<char>>,
    from: int,
    read: ImportArgsView,
) -> Option<ImportArgsView>
    decreases args.len() - from,
{
    if from < 0 || from >= args.len() {
        Some(read)
    } else if args[from] == "--user"@ {
        if from + 1 < args.len() {
            import_args_from(
                args,
                from + 2,
                ImportArgsView { user: Some(args[from + 1]), ..read },
            )
        } else {
            None
        }
    } else {
        import_args_from(
            args,
            from + 1,
            ImportArgsView { paths: read.paths.push(args[from]), ..read },
        )
    }
}

/// The user and the file of an import, or why it is refused.
pub open spec fn import_args_in(args: Seq<Seq<char>>) -> Result<(Seq<char>, Seq<char>), Seq<char>> {
    match import_args_from(args, 0, ImportArgsView { user: None, paths: Seq::empty() }) {
        None => Err("--user bir değer ister"@),
        Some(read) => match read.user {
            None => Err("--user <sub> zorunlu — veri kişilere ayrıldı"@),
            Some(user) => if read.paths.len() == 0 {
                Err("ekstre dosyası gerekli"@)
            } else {
                Ok((user, read.paths[0]))
            },
        },
    }
}

/// Reads the arguments of an import: the user and the file.
pub fn import_args(args: &[String]) -> (r: Result<(String, String), &'static str>)
    ensures
        match r {
            Ok((user, path)) => import_args_in(views(args@)) == Ok::<
                (Seq<char>, Seq<char>),
                Seq<char>,
            >((user@, path@)),
            Err(problem) => import_args_in(views(args@)) == Err::<
                (Seq<char>, Seq<char>),
                Seq<char>,
            >(problem@),
        },
{
    let ghost all = views(args@);
    let mut user: Option<String> = None;
    let mut path: Option<String> = None;
    let ghost mut read = ImportArgsView { user: None, paths: Seq::empty() };
    let ghost start = read;
    let mut i: usize = 0;
    while i < args.len()
        invariant
            i <= args.len(),
            all == views(args@),
            start == (ImportArgsView { user: None, paths: Seq::empty() }),
            opt_text(user) == read.user,
            opt_text(path) == if read.paths.len() == 0 {
                None
            } else {
                Some(read.paths[0])
            },
            import_args_from(all, 0, start) == import_args_from(all, i as int, read),
        decreases args.len() - i,
    {
        proof {
            assert(all[i as int] == args@[i as int]@);
        }
        if same_str(args[i].as_str(), "--user") {
            if i + 1 >= args.len() {
                return Err("--user bir değer ister");
            }
            proof {
                assert(all[i as int + 1] == args@[i as int + 1]@);
                read = ImportArgsView { user: Some(all[i as int + 1]), ..read };
            }
            user = Some(copy(args[i + 1].as_str()));
            i += 2;
        } else {
            if path.is_none() {
                path = Some(copy(args[i].as_str()));
            }
            proof {
                read = ImportArgsView { paths: read.paths.push(all[i as int]), ..read };
            }
            i += 1;
        }
    }
    match user {
        None => Err("--user <sub> zorunlu — veri kişilere ayrıldı"),
        Some(user) => match path {
            None => Err("ekstre dosyası gerekli"),
            Some(path) => Ok((user, path)),
        },
    }
}

/// The line on a statement that was read.
pub open spec fn statement_line_of(head: StatementHeadView) -> Seq<char> {
    "ekstre   dönem sonu "@ + head.period_end + " · dönem borcu "@ + money(
        head.period_debt_minor as int,
    ) + " · asgari ödeme "@ + money(head.min_pay_minor as int)
}

/// Writes the line on a statement that was read.
pub fn statement_line(head: &StatementHead) -> (r: String)
    ensures
        r@ == statement_line_of(head@),
{
    let mut line = copy("ekstre   dönem sonu ");
    line.append(head.period_end.as_str());
    line.append(" · dönem borcu ");
    line.append(tr_money(head.period_debt_minor).as_str());
    line.append(" · asgari ödeme ");
    line.append(tr_money(head.min_pay_minor).as_str());
    line
}

/// The line on an import that was done.
pub open spec fn import_line_of(report: ImportReportView) -> Seq<char> {
    if report.duplicate {
        "kopya    bu ekstre zaten yüklü ("@ + int_text(report.txn_count as int)
            + " işlem), yeni kayıt yazılmadı"@
    } else {
        "aktarıldı  "@ + int_text(report.txn_count as int) + " işlem · etiketli "@ + int_text(
            report.labeled as int,
        ) + " · etiketsiz "@ + int_text(report.unlabeled as int)
    }
}

fn append_count(text: &mut String, n: usize)
    ensures
        final(text)@ == old(text)@ + int_text(n as int),
{
    let digits = dec_chars(n as u64);
    text.append(string_of(&digits).as_str());
    proof {
        assert(text@ =~= old(text)@ + int_text(n as int));
    }
}

/// Writes the line on an import that was done.
pub fn import_line(report: &ImportReport) -> (r: String)
    ensures
        r@ == import_line_of(report@),
{
    if report.duplicate {
        let mut line = copy("kopya    bu ekstre zaten yüklü (");
        append_count(&mut line, report.txn_count);
        line.append(" işlem), yeni kayıt yazılmadı");
        line
    } else {
        let mut line = copy("aktarıldı  ");
        append_count(&mut line, report.txn_count);
        line.append(" işlem · etiketli ");
        append_count(&mut line, report.labeled);
        line.append(" · etiketsiz ");
        append_count(&mut line, report.unlabeled);
        line
    }
}

} // verus!
