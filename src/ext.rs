//! Classification of file names by their extension.
use vstd::prelude::*;
use vstd::string::StringSliceAdditionalSpecFns;

verus! {

/// Text file types that the search knows, and `UNKNOWN` for every other suffix.
#[derive(Clone, Copy, Debug, PartialEq, Eq, Hash, Structural)]
pub enum Extension {
    BZL,
    C,
    COFFEE,
    CPP,
    CSS,
    GO,
    H,
    HTML,
    JAVA,
    JS,
    JSON,
    JSX,
    M,
    MARKDOWN,
    MD,
    PHP,
    PL,
    PROTO,
    PY,
    PYST,
    RB,
    RS,
    SCALA,
    SCSS,
    SH,
    SQL,
    SWIFT,
    THRIFT,
    TSX,
    XML,
    YAML,
    YML,
    UNKNOWN,
}

/// The suffix that names each known extension.
pub open spec fn name_of(e: Extension) -> Seq<char> {
    match e {
        Extension::BZL => "bzl"@,
        Extension::C => "c"@,
        Extension::COFFEE => "coffee"@,
        Extension::CPP => "cpp"@,
        Extension::CSS => "css"@,
        Extension::GO => "go"@,
        Extension::H => "h"@,
        Extension::HTML => "html"@,
        Extension::JAVA => "java"@,
        Extension::JS => "js"@,
        Extension::JSON => "json"@,
        Extension::JSX => "jsx"@,
        Extension::M => "m"@,
        Extension::MARKDOWN => "markdown"@,
        Extension::MD => "md"@,
        Extension::PHP => "php"@,
        Extension::PL => "pl"@,
        Extension::PROTO => "proto"@,
        Extension::PY => "py"@,
        Extension::PYST => "pyst"@,
        Extension::RB => "rb"@,
        Extension::RS => "rs"@,
        Extension::SCALA => "scala"@,
        Extension::SCSS => "scss"@,
        Extension::SH => "sh"@,
        Extension::SQL => "sql"@,
        Extension::SWIFT => "swift"@,
        Extension::THRIFT => "thrift"@,
        Extension::TSX => "tsx"@,
        Extension::XML => "xml"@,
        Extension::YAML => "yaml"@,
        Extension::YML => "yml"@,
        Extension::UNKNOWN => "<unknown>"@,
    }
}

/// The extension that a normalised (trimmed, lower case) suffix names.
pub open spec fn ext_from_name(n: Seq<char>) -> Extension {
    if n == "bzl"@ {
        Extension::BZL
    } else if n == "c"@ {
        Extension::C
    } else if n == "coffee"@ {
        Extension::COFFEE
    } else if n == "cpp"@ {
        Extension::CPP
    } else if n == "css"@ {
        Extension::CSS
    } else if n == "go"@ {
        Extension::GO
    } else if n == "h"@ {
        Extension::H
    } else if n == "html"@ {
        Extension::HTML
    } else if n == "java"@ {
        Extension::JAVA
    } else if n == "js"@ {
        Extension::JS
    } else if n == "json"@ {
        Extension::JSON
    } else if n == "jsx"@ {
        Extension::JSX
    } else if n == "m"@ {
        Extension::M
    } else if n == "markdown"@ {
        Extension::MARKDOWN
    } else if n == "md"@ {
        Extension::MD
    } else if n == "php"@ {
        Extension::PHP
    } else if n == "pl"@ {
        Extension::PL
    } else if n == "proto"@ {
        Extension::PROTO
    } else if n == "py"@ {
        Extension::PY
    } else if n == "pyst"@ {
        Extension::PYST
    } else if n == "rb"@ {
        Extension::RB
    } else if n == "rs"@ {
        Extension::RS
    } else if n == "scala"@ {
        Extension::SCALA
    } else if n == "scss"@ {
        Extension::SCSS
    } else if n == "sh"@ {
        Extension::SH
    } else if n == "sql"@ {
        Extension::SQL
    } else if n == "swift"@ {
        Extension::SWIFT
    } else if n == "thrift"@ {
        Extension::THRIFT
    } else if n == "tsx"@ {
        Extension::TSX
    } else if n == "xml"@ {
        Extension::XML
    } else if n == "yaml"@ {
        Extension::YAML
    } else if n == "yml"@ {
        Extension::YML
    } else {
        Extension::UNKNOWN
    }
}

/// The characters that `char::is_whitespace` accepts: those with the Unicode
/// `White_Space` property.
pub open spec fn is_white_space(c: char) -> bool {
    let u = c as u32;
    (0x9 <= u && u <= 0xD) || u == 0x20 || u == 0x85 || u == 0xA0 || u == 0x1680
        || (0x2000 <= u && u <= 0x200A) || u == 0x2028 || u == 0x2029 || u == 0x202F
        || u == 0x205F || u == 0x3000
}

/// `s` without its leading white space.
pub open spec fn trim_start(s: Seq<char>) -> Seq<char>
    decreases s.len(),
{
    if s.len() > 0 && is_white_space(s[0]) {
        trim_start(s.drop_first())
    } else {
        s
    }
}

/// `s` without its trailing white space.
pub open spec fn trim_end(s: Seq<char>) -> Seq<char>
    decreases s.len(),
{
    if s.len() > 0 && is_white_space(s.last()) {
        trim_end(s.drop_last())
    } else {
        s
    }
}

/// `s` without its leading and trailing white space.
pub open spec fn trimmed(s: Seq<char>) -> Seq<char> {
    trim_end(trim_start(s))
}

/// What `str::to_lowercase` returns; it depends on the characters alone.
pub uninterp spec fn lowercased(s: Seq<char>) -> Seq<char>;

/// Relies on `str::trim`: drops the leading and trailing characters that
/// `char::is_whitespace` accepts.
#[verifier::external_body]
fn trim_text(s: &str) -> (r: &str)
    ensures
        r@ == trimmed(s@),
{
    s.trim()
}

/// Relies on `str::to_lowercase`: the lower case form of the text.
#[verifier::external_body]
fn lowercase_text(s: &str) -> (r: String)
    ensures
        r@ == lowercased(s@),
{
    s.to_lowercase()
}

/// True iff the two strings hold the same characters.
pub fn same_text(a: &str, b: &str) -> (r: bool)
    ensures
        r == (a@ == b@),
{
    let x = a.as_bytes();
    let y = b.as_bytes();
    if x.len() != y.len() {
        return false;
    }
    let mut i: usize = 0;
    while i < x.len()
        invariant
            x@ == a.spec_bytes(),
            y@ == b.spec_bytes(),
            x@.len() == y@.len(),
            0 <= i <= x@.len(),
            x@.subrange(0, i as int) == y@.subrange(0, i as int),
        decreases x@.len() - i,
    {
        if x[i] != y[i] {
            return false;
        }
        assert(x@.subrange(0, i + 1) == x@.subrange(0, i as int).push(x@[i as int]));
        assert(y@.subrange(0, i + 1) == y@.subrange(0, i as int).push(y@[i as int]));
        i = i + 1;
    }
    assert(x@ == x@.subrange(0, x@.len() as int));
    assert(y@ == y@.subrange(0, y@.len() as int));
    proof {
        vstd::utf8::encode_utf8_decode_utf8(a@);
        vstd::utf8::encode_utf8_decode_utf8(b@);
    }
    true
}

impl Extension {
    /// The suffix that names this extension (`<unknown>` for `UNKNOWN`).
    pub fn as_str(&self) -> (r: &'static str)
        ensures
            r@ == name_of(*self),
    {
        match self {
            Extension::BZL => "bzl",
            Extension::C => "c",
            Extension::COFFEE => "coffee",
            Extension::CPP => "cpp",
            Extension::CSS => "css",
            Extension::GO => "go",
            Extension::H => "h",
            Extension::HTML => "html",
            Extension::JAVA => "java",
            Extension::JS => "js",
            Extension::JSON => "json",
            Extension::JSX => "jsx",
            Extension::M => "m",
            Extension::MARKDOWN => "markdown",
            Extension::MD => "md",
            Extension::PHP => "php",
            Extension::PL => "pl",
            Extension::PROTO => "proto",
            Extension::PY => "py",
            Extension::PYST => "pyst",
            Extension::RB => "rb",
            Extension::RS => "rs",
            Extension::SCALA => "scala",
            Extension::SCSS => "scss",
            Extension::SH => "sh",
            Extension::SQL => "sql",
            Extension::SWIFT => "swift",
            Extension::THRIFT => "thrift",
            Extension::TSX => "tsx",
            Extension::XML => "xml",
            Extension::YAML => "yaml",
            Extension::YML => "yml",
            Extension::UNKNOWN => "<unknown>",
        }
    }

    /// The extension named by an already normalised suffix; any other text
    /// gives `UNKNOWN`.
    pub fn from_name(n: &str) -> (r: Extension)
        ensures
            r == ext_from_name(n@),
    {
        if same_text(n, "bzl") {
            return Extension::BZL;
        }
        if same_text(n, "c") {
            return Extension::C;
        }
        if same_text(n, "coffee") {
            return Extension::COFFEE;
        }
        if same_text(n, "cpp") {
            return Extension::CPP;
        }
        if same_text(n, "css") {
            return Extension::CSS;
        }
        if same_text(n, "go") {
            return Extension::GO;
        }
        if same_text(n, "h") {
            return Extension::H;
        }
        if same_text(n, "html") {
            return Extension::HTML;
        }
        if same_text(n, "java") {
            return Extension::JAVA;
        }
        if same_text(n, "js") {
            return Extension::JS;
        }
        if same_text(n, "json") {
            return Extension::JSON;
        }
        if same_text(n, "jsx") {
            return Extension::JSX;
        }
        if same_text(n, "m") {
            return Extension::M;
        }
        if same_text(n, "markdown") {
            return Extension::MARKDOWN;
        }
        if same_text(n, "md") {
            return Extension::MD;
        }
        if same_text(n, "php") {
            return Extension::PHP;
        }
        if same_text(n, "pl") {
            return Extension::PL;
        }
        if same_text(n, "proto") {
            return Extension::PROTO;
        }
        if same_text(n, "py") {
            return Extension::PY;
        }
        if same_text(n, "pyst") {
            return Extension::PYST;
        }
        if same_text(n, "rb") {
            return Extension::RB;
        }
        if same_text(n, "rs") {
            return Extension::RS;
        }
        if same_text(n, "scala") {
            return Extension::SCALA;
        }
        if same_text(n, "scss") {
            return Extension::SCSS;
        }
        if same_text(n, "sh") {
            return Extension::SH;
        }
        if same_text(n, "sql") {
            return Extension::SQL;
        }
        if same_text(n, "swift") {
            return Extension::SWIFT;
        }
        if same_text(n, "thrift") {
            return Extension::THRIFT;
        }
        if same_text(n, "tsx") {
            return Extension::TSX;
        }
        if same_text(n, "xml") {
            return Extension::XML;
        }
        if same_text(n, "yaml") {
            return Extension::YAML;
        }
        if same_text(n, "yml") {
            return Extension::YML;
        }
        Extension::UNKNOWN
    }

    /// Parses a file suffix: trims it, folds it to lower case and looks it up.
    /// Parsing is total: an unrecognised suffix gives `UNKNOWN`.
    pub fn parse(s: &str) -> (r: Extension)
        ensures
            r == ext_from_name(lowercased(trimmed(s@))),
    {
        let t = trim_text(s);
        let l = lowercase_text(t);
        Extension::from_name(l.as_str())
    }
}

/// A set of extensions whose files are searched by content.
#[derive(Clone, Debug)]
pub struct Extensions {
    pub set: Vec<Extension>,
}

impl Extensions {
    /// True iff `e` belongs to the set.
    pub open spec fn allows(&self, e: Extension) -> bool {
        self.set@.contains(e)
    }

    /// The set of every known extension, `UNKNOWN` excepted.
    pub fn new() -> (r: Self)
        ensures
            forall|e: Extension| r.allows(e) <==> e != Extension::UNKNOWN,
    {
        let set = vec![
            Extension::BZL,
            Extension::C,
            Extension::COFFEE,
            Extension::CPP,
            Extension::CSS,
            Extension::GO,
            Extension::H,
            Extension::HTML,
            Extension::JAVA,
            Extension::JS,
            Extension::JSON,
            Extension::JSX,
            Extension::M,
            Extension::MARKDOWN,
            Extension::MD,
            Extension::PHP,
            Extension::PL,
            Extension::PROTO,
            Extension::PY,
            Extension::PYST,
            Extension::RB,
            Extension::RS,
            Extension::SCALA,
            Extension::SCSS,
            Extension::SH,
            Extension::SQL,
            Extension::SWIFT,
            Extension::THRIFT,
            Extension::TSX,
            Extension::XML,
            Extension::YAML,
            Extension::YML,
        ];
        let r = Extensions { set };
        assert forall|e: Extension| r.allows(e) <==> e != Extension::UNKNOWN by {
            match e {
                Extension::BZL => assert(r.set@[0] == e),
                Extension::C => assert(r.set@[1] == e),
                Extension::COFFEE => assert(r.set@[2] == e),
                Extension::CPP => assert(r.set@[3] == e),
                Extension::CSS => assert(r.set@[4] == e),
                Extension::GO => assert(r.set@[5] == e),
                Extension::H => assert(r.set@[6] == e),
                Extension::HTML => assert(r.set@[7] == e),
                Extension::JAVA => assert(r.set@[8] == e),
                Extension::JS => assert(r.set@[9] == e),
                Extension::JSON => assert(r.set@[10] == e),
                Extension::JSX => assert(r.set@[11] == e),
                Extension::M => assert(r.set@[12] == e),
                Extension::MARKDOWN => assert(r.set@[13] == e),
                Extension::MD => assert(r.set@[14] == e),
                Extension::PHP => assert(r.set@[15] == e),
                Extension::PL => assert(r.set@[16] == e),
                Extension::PROTO => assert(r.set@[17] == e),
                Extension::PY => assert(r.set@[18] == e),
                Extension::PYST => assert(r.set@[19] == e),
                Extension::RB => assert(r.set@[20] == e),
                Extension::RS => assert(r.set@[21] == e),
                Extension::SCALA => assert(r.set@[22] == e),
                Extension::SCSS => assert(r.set@[23] == e),
                Extension::SH => assert(r.set@[24] == e),
                Extension::SQL => assert(r.set@[25] == e),
                Extension::SWIFT => assert(r.set@[26] == e),
                Extension::THRIFT => assert(r.set@[27] == e),
                Extension::TSX => assert(r.set@[28] == e),
                Extension::XML => assert(r.set@[29] == e),
                Extension::YAML => assert(r.set@[30] == e),
                Extension::YML => assert(r.set@[31] == e),
                Extension::UNKNOWN => {
                    assert(!r.set@.contains(e)) by {
                        assert(forall|i: int| 0 <= i < r.set@.len() ==> r.set@[i] != Extension::UNKNOWN);
                    }
                },
            }
        }
        r
    }

    /// The full set of known extensions; the same as `new`.
    pub fn all() -> (r: Self)
        ensures
            forall|e: Extension| r.allows(e) <==> e != Extension::UNKNOWN,
    {
        Extensions::new()
    }

    /// The set of the given extensions.
    pub fn with_extensions(extensions: Vec<Extension>) -> (r: Self)
        ensures
            forall|e: Extension| r.allows(e) <==> extensions@.contains(e),
    {
        Extensions { set: extensions }
    }

    /// True iff `ext` belongs to the set.
    pub fn is_supported_extension(&self, ext: Extension) -> (r: bool)
        ensures
            r == self.allows(ext),
    {
        let mut i: usize = 0;
        while i < self.set.len()
            invariant
                0 <= i <= self.set@.len(),
                forall|j: int| 0 <= j < i ==> self.set@[j] != ext,
            decreases self.set@.len() - i,
        {
            if self.set[i] == ext {
                return true;
            }
            i = i + 1;
        }
        false
    }
}

} // verus!
