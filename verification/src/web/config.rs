//! The settings of the program.

use crate::text::{copy, views};
use vstd::prelude::*;
use vstd::string::StringExecFns;

verus! {

/// Where the settings are.
pub const PATH: &'static str = "config/budget.toml";

/// The settings that a first start writes.
pub const DEFAULTS: &'static str =
    "\
# budget yapılandırması. `budget-web` ilk açılışta bu içeriği CWD altındaki
# `config/budget.toml`'a yazar; değiştirmek için dosyayı düzenin.
# Veritabanı ve storage yolları CWD'ye göredir.
database = \"budget.db\"
storage = \"storage\"
listen = \"127.0.0.1:7656\"

[oidc]
# im'in adresi ve bu uygulamanın im'deki kaydı. client_id boşken sunucu
# açılmaz: `im-web create-client budget <redirect_uri>` çıktısını buraya
# yazın. Gerçek sırlar depoya yazılmaz; dosya gitignored.
issuer = \"http://127.0.0.1:7650\"
client_id = \"\"
client_secret = \"\"
redirect_uri = \"http://127.0.0.1:7656/auth/callback\"
";

/// The settings.
#[derive(Debug, Clone)]
pub struct Config {
    pub database: String,
    pub storage: String,
    pub listen: String,
    pub oidc: OidcConfig,
}

/// The settings of signing in.
#[derive(Debug, Clone)]
pub struct OidcConfig {
    pub issuer: String,
    pub client_id: String,
    pub client_secret: String,
    pub redirect_uri: String,
}

pub fn default_issuer() -> (r: String)
    ensures
        r@ == "http://127.0.0.1:7650"@,
{
    copy("http://127.0.0.1:7650")
}

pub fn default_redirect_uri() -> (r: String)
    ensures
        r@ == "http://127.0.0.1:7656/auth/callback"@,
{
    copy("http://127.0.0.1:7656/auth/callback")
}

pub fn default_database() -> (r: String)
    ensures
        r@ == "budget.db"@,
{
    copy("budget.db")
}

pub fn default_storage() -> (r: String)
    ensures
        r@ == "storage"@,
{
    copy("storage")
}

pub fn default_listen() -> (r: String)
    ensures
        r@ == "127.0.0.1:7656"@,
{
    copy("127.0.0.1:7656")
}

impl Default for OidcConfig {
    /// The addresses of development, and no secrets.
    fn default() -> (r: OidcConfig)
        ensures
            r.issuer@ == "http://127.0.0.1:7650"@,
            r.client_id@ == Seq::<char>::empty(),
            r.client_secret@ == Seq::<char>::empty(),
            r.redirect_uri@ == "http://127.0.0.1:7656/auth/callback"@,
    {
        let client_id = String::new();
        let client_secret = String::new();
        proof {
            assert(client_id@ =~= Seq::<char>::empty());
            assert(client_secret@ =~= Seq::<char>::empty());
        }
        OidcConfig {
            issuer: default_issuer(),
            client_id,
            client_secret,
            redirect_uri: default_redirect_uri(),
        }
    }
}

/// The lines that a start prints of its settings. The secrets stay out: of the
/// client's id they tell whether there is one.
pub open spec fn report_lines(config: Config) -> Seq<Seq<char>> {
    seq![
        "config   "@ + PATH@,
        "database "@ + config.database@,
        "storage  "@ + config.storage@,
        "listen   "@ + config.listen@,
        "oidc     "@ + config.oidc.issuer@ + " · client_id "@ + (if config.oidc.client_id@.len()
            == 0 {
            "boş"@
        } else {
            "ayarlı"@
        }),
    ]
}

fn line(head: &str, rest: &str) -> (r: String)
    ensures
        r@ == head@ + rest@,
{
    let mut text = copy(head);
    text.append(rest);
    text
}

impl Config {
    /// The lines that a start prints of its settings.
    pub fn report(&self) -> (r: Vec<String>)
        ensures
            views(r@) == report_lines(*self),
    {
        let mut oidc = copy("oidc     ");
        oidc.append(self.oidc.issuer.as_str());
        oidc.append(" · client_id ");
        if self.oidc.client_id.as_str().is_empty() {
            oidc.append("boş");
        } else {
            oidc.append("ayarlı");
        }
        let lines = vec![
            line("config   ", PATH),
            line("database ", self.database.as_str()),
            line("storage  ", self.storage.as_str()),
            line("listen   ", self.listen.as_str()),
            oidc,
        ];
        proof {
            assert(views(lines@) =~= report_lines(*self));
        }
        lines
    }
}

/// The lines printed where no client is registered; `None` where one is, and
/// the server can start.
pub fn missing_client(config: &Config) -> (r: Option<Vec<String>>)
    ensures
        match r {
            None => config.oidc.client_id@.len() > 0,
            Some(lines) => config.oidc.client_id@.len() == 0 && views(lines@) == seq![
                "[oidc] client_id boş — sunucu im ile açılmaz"@,
                "im'de istemci açın:"@,
                "  im-web create-client budget "@ + config.oidc.redirect_uri@,
                "çıkan client_id ve client_secret'i config/budget.toml [oidc] altına yazın"@,
            ],
        },
{
    if !config.oidc.client_id.as_str().is_empty() {
        return None;
    }
    let lines = vec![
        copy("[oidc] client_id boş — sunucu im ile açılmaz"),
        copy("im'de istemci açın:"),
        line("  im-web create-client budget ", config.oidc.redirect_uri.as_str()),
        copy("çıkan client_id ve client_secret'i config/budget.toml [oidc] altına yazın"),
    ];
    proof {
        assert(views(lines@) =~= seq![
            "[oidc] client_id boş — sunucu im ile açılmaz"@,
            "im'de istemci açın:"@,
            "  im-web create-client budget "@ + config.oidc.redirect_uri@,
            "çıkan client_id ve client_secret'i config/budget.toml [oidc] altına yazın"@,
        ]);
    }
    Some(lines)
}

/// No line that a start prints holds a secret: settings that differ in the
/// client's secret alone print the same lines.
pub proof fn report_keeps_secrets(a: Config, b: Config)
    requires
        a.database@ == b.database@,
        a.storage@ == b.storage@,
        a.listen@ == b.listen@,
        a.oidc.issuer@ == b.oidc.issuer@,
        (a.oidc.client_id@.len() == 0) == (b.oidc.client_id@.len() == 0),
    ensures
        report_lines(a) == report_lines(b),
{
}

} // verus!
