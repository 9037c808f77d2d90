//! The formats into which recorded traces can be converted.

use crate::text::lowercases_to;
use std::str::FromStr;
use vstd::prelude::*;
use vstd::string::StringExecFns;

verus! {

/// File formats into which recorded traces can be converted.
///
/// The values stand for command line arguments, which is why they are in lower case.
#[allow(non_camel_case_types)]
#[derive(Clone, Copy, Debug, PartialEq, Eq, PartialOrd, Ord, Hash, Structural)]
pub enum OutputFormat {
    flamegraph,
    collapsed,
    callgrind,
    speedscope,
    pprof,
    summary,
    summary_by_line,
}

/// The output that a format is written with. Only a flame graph has a minimum width.
#[derive(Clone, Debug, PartialEq, Eq)]
pub enum Outputter<W> {
    Flamegraph(W),
    Collapsed,
    Callgrind,
    Speedscope,
    Pprof,
    Summary,
    SummaryLine,
}

/// The error for a name that no format has.
#[derive(Clone, Debug, PartialEq, Eq)]
pub struct UnknownOutputFormat {
    pub name: String,
}

impl UnknownOutputFormat {
    /// The message of the error.
    pub fn to_string(&self) -> (text: String)
        ensures
            text@ == "Unknown output format: "@ + self.name@,
    {
        let mut text: String = "Unknown output format: ".to_string();
        text.append(self.name.as_str());
        text
    }
}

impl OutputFormat {
    /// The name of the format on the command line.
    pub open spec fn name(self) -> Seq<char> {
        match self {
            OutputFormat::flamegraph => "flamegraph"@,
            OutputFormat::collapsed => "collapsed"@,
            OutputFormat::callgrind => "callgrind"@,
            OutputFormat::speedscope => "speedscope"@,
            OutputFormat::pprof => "pprof"@,
            OutputFormat::summary => "summary"@,
            OutputFormat::summary_by_line => "summary-by-line"@,
        }
    }

    /// The extension of files in the format.
    pub open spec fn file_extension(self) -> Seq<char> {
        match self {
            OutputFormat::flamegraph => "flamegraph.svg"@,
            OutputFormat::collapsed => "collapsed.txt"@,
            OutputFormat::callgrind => "callgrind.txt"@,
            OutputFormat::speedscope => "speedscope.json"@,
            OutputFormat::pprof => "profile.pb.gz"@,
            OutputFormat::summary => "summary.txt"@,
            OutputFormat::summary_by_line => "summary_by_line.txt"@,
        }
    }

    /// All formats, in the order of their declaration.
    pub open spec fn all() -> Seq<OutputFormat> {
        seq![
            OutputFormat::flamegraph,
            OutputFormat::collapsed,
            OutputFormat::callgrind,
            OutputFormat::speedscope,
            OutputFormat::pprof,
            OutputFormat::summary,
            OutputFormat::summary_by_line,
        ]
    }

    /// The output that the format is written with.
    pub fn outputter<W>(self, flame_min_width: W) -> (r: Outputter<W>)
        ensures
            r == match self {
                OutputFormat::flamegraph => Outputter::Flamegraph(flame_min_width),
                OutputFormat::collapsed => Outputter::Collapsed,
                OutputFormat::callgrind => Outputter::Callgrind,
                OutputFormat::speedscope => Outputter::Speedscope,
                OutputFormat::pprof => Outputter::Pprof,
                OutputFormat::summary => Outputter::Summary,
                OutputFormat::summary_by_line => Outputter::SummaryLine,
            },
    {
        match self {
            OutputFormat::flamegraph => Outputter::Flamegraph(flame_min_width),
            OutputFormat::collapsed => Outputter::Collapsed,
            OutputFormat::callgrind => Outputter::Callgrind,
            OutputFormat::speedscope => Outputter::Speedscope,
            OutputFormat::pprof => Outputter::Pprof,
            OutputFormat::summary => Outputter::Summary,
            OutputFormat::summary_by_line => Outputter::SummaryLine,
        }
    }

    /// The extension of files in the format.
    pub fn extension(&self) -> (extension: String)
        ensures
            extension@ == self.file_extension(),
    {
        let extension: &str = match *self {
            OutputFormat::flamegraph => "flamegraph.svg",
            OutputFormat::collapsed => "collapsed.txt",
            OutputFormat::callgrind => "callgrind.txt",
            OutputFormat::speedscope => "speedscope.json",
            OutputFormat::pprof => "profile.pb.gz",
            OutputFormat::summary => "summary.txt",
            OutputFormat::summary_by_line => "summary_by_line.txt",
        };
        extension.to_string()
    }

    /// The names of all formats on the command line, in the order of their
    /// declaration.
    pub fn possible_values() -> (names: Vec<&'static str>)
        ensures
            names@.len() == OutputFormat::all().len(),
            forall|i: int|
                0 <= i < names@.len() ==> (#[trigger] names@[i])@ == OutputFormat::all()[i].name(),
    {
        vec![
            "flamegraph",
            "collapsed",
            "callgrind",
            "speedscope",
            "pprof",
            "summary",
            "summary-by-line",
        ]
    }

    /// The format of the given name, in whatever case its ASCII letters are.
    pub fn from_str(s: &str) -> (r: Result<OutputFormat, UnknownOutputFormat>)
        ensures
            match r {
                Ok(format) => crate::text::ascii_lowercase(s@) == format.name(),
                Err(error) => {
                    &&& forall|format: OutputFormat|
                        crate::text::ascii_lowercase(s@) != #[trigger] format.name()
                    &&& error.name@ == s@
                },
            },
    {
        if lowercases_to(s, "flamegraph") {
            Ok(OutputFormat::flamegraph)
        } else if lowercases_to(s, "collapsed") {
            Ok(OutputFormat::collapsed)
        } else if lowercases_to(s, "callgrind") {
            Ok(OutputFormat::callgrind)
        } else if lowercases_to(s, "speedscope") {
            Ok(OutputFormat::speedscope)
        } else if lowercases_to(s, "pprof") {
            Ok(OutputFormat::pprof)
        } else if lowercases_to(s, "summary") {
            Ok(OutputFormat::summary)
        } else if lowercases_to(s, "summary-by-line") {
            Ok(OutputFormat::summary_by_line)
        } else {
            Err(UnknownOutputFormat { name: s.to_string() })
        }
    }
}

impl FromStr for OutputFormat {
    type Err = UnknownOutputFormat;

    fn from_str(s: &str) -> (r: Result<OutputFormat, UnknownOutputFormat>)
        ensures
            match r {
                Ok(format) => crate::text::ascii_lowercase(s@) == format.name(),
                Err(error) => {
                    &&& forall|format: OutputFormat|
                        crate::text::ascii_lowercase(s@) != #[trigger] format.name()
                    &&& error.name@ == s@
                },
            },
    {
        OutputFormat::from_str(s)
    }
}

/// No two formats have the same name.
pub proof fn names_are_distinct(a: OutputFormat, b: OutputFormat)
    requires
        a.name() == b.name(),
    ensures
        a == b,
{
    lemma_reveal_names();
    assert("flamegraph"@[0] != "speedscope"@[0]);
    assert("collapsed"@[1] != "callgrind"@[1]);
    assert("flamegraph"@.len() == 10 && "speedscope"@.len() == 10);
    assert("collapsed"@.len() == 9 && "callgrind"@.len() == 9);
    assert("pprof"@.len() == 5 && "summary"@.len() == 7 && "summary-by-line"@.len() == 15);
}

/// No two formats have the same file extension.
pub proof fn extensions_are_distinct(a: OutputFormat, b: OutputFormat)
    requires
        a.file_extension() == b.file_extension(),
    ensures
        a == b,
{
    reveal_strlit("flamegraph.svg");
    reveal_strlit("collapsed.txt");
    reveal_strlit("callgrind.txt");
    reveal_strlit("speedscope.json");
    reveal_strlit("profile.pb.gz");
    reveal_strlit("summary.txt");
    reveal_strlit("summary_by_line.txt");
    assert("flamegraph.svg"@.len() == 14 && "speedscope.json"@.len() == 15);
    assert("collapsed.txt"@.len() == 13 && "callgrind.txt"@.len() == 13);
    assert("profile.pb.gz"@.len() == 13 && "summary.txt"@.len() == 11);
    assert("summary_by_line.txt"@.len() == 19);
    assert("collapsed.txt"@[0] != "profile.pb.gz"@[0]);
    assert("collapsed.txt"@[1] != "callgrind.txt"@[1]);
    assert("callgrind.txt"@[0] != "profile.pb.gz"@[0]);
}

/// A format is found under its own name, and under no other format's.
pub proof fn names_read_back(format: OutputFormat, other: OutputFormat)
    ensures
        crate::text::ascii_lowercase(format.name()) == format.name(),
        crate::text::ascii_lowercase(format.name()) == other.name() ==> format == other,
{
    lemma_reveal_names();
    assert(crate::text::ascii_lowercase(format.name()) =~= format.name());
    if format.name() == other.name() {
        names_are_distinct(format, other);
    }
}

/// Whether a name is written in upper or in lower case makes no difference.
pub proof fn case_makes_no_difference(s: Seq<char>, t: Seq<char>)
    requires
        s.len() == t.len(),
        forall|i: int|
            0 <= i < s.len() ==> crate::text::ascii_lower(#[trigger] s[i])
                == crate::text::ascii_lower(t[i]),
    ensures
        crate::text::ascii_lowercase(s) == crate::text::ascii_lowercase(t),
{
    assert(crate::text::ascii_lowercase(s) =~= crate::text::ascii_lowercase(t));
}

/// `OutputFormat::all` holds every format.
pub proof fn all_formats_are_listed(format: OutputFormat)
    ensures
        OutputFormat::all().contains(format),
{
    let all = OutputFormat::all();
    assert(all[0] is flamegraph && all[1] is collapsed && all[2] is callgrind);
    assert(all[3] is speedscope && all[4] is pprof && all[5] is summary);
    assert(all[6] is summary_by_line);
}

proof fn lemma_reveal_names()
    ensures
        "flamegraph"@ == seq!['f', 'l', 'a', 'm', 'e', 'g', 'r', 'a', 'p', 'h'],
        "collapsed"@ == seq!['c', 'o', 'l', 'l', 'a', 'p', 's', 'e', 'd'],
        "callgrind"@ == seq!['c', 'a', 'l', 'l', 'g', 'r', 'i', 'n', 'd'],
        "speedscope"@ == seq!['s', 'p', 'e', 'e', 'd', 's', 'c', 'o', 'p', 'e'],
        "pprof"@ == seq!['p', 'p', 'r', 'o', 'f'],
        "summary"@ == seq!['s', 'u', 'm', 'm', 'a', 'r', 'y'],
        "summary-by-line"@ == seq![
            's',
            'u',
            'm',
            'm',
            'a',
            'r',
            'y',
            '-',
            'b',
            'y',
            '-',
            'l',
            'i',
            'n',
            'e',
        ],
{
    reveal_strlit("flamegraph");
    reveal_strlit("collapsed");
    reveal_strlit("callgrind");
    reveal_strlit("speedscope");
    reveal_strlit("pprof");
    reveal_strlit("summary");
    reveal_strlit("summary-by-line");
}

} // verus!
