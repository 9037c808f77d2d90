//! Stack frames.

use crate::text::{append_numeral, compare_text};
use std::cmp::Ordering;
use vstd::prelude::*;
use vstd::string::StringExecFns;

verus! {

/// One function on a stack.
#[derive(Debug, PartialEq, Eq, Hash, Clone)]
pub struct StackFrame {
    pub name: String,
    pub relative_path: String,
    pub absolute_path: Option<String>,
    pub lineno: Option<usize>,
}

impl StackFrame {
    /// The absolute path where it is known, else the relative one.
    pub open spec fn best_path(self) -> Seq<char> {
        match self.absolute_path {
            Some(path) => path@,
            None => self.relative_path@,
        }
    }

    /// The text of the frame: its name, its path, and its line where it is known.
    pub open spec fn text(self) -> Seq<char> {
        let place = self.name@ + " - "@ + self.best_path();
        match self.lineno {
            Some(lineno) => place + ":"@ + crate::text::numeral(lineno as nat, 10),
            None => place,
        }
    }

    /// The absolute path where it is known, else the relative one.
    pub fn path(&self) -> (path: &str)
        ensures
            path@ == self.best_path(),
    {
        match &self.absolute_path {
            Some(path) => path.as_str(),
            None => self.relative_path.as_str(),
        }
    }

    /// The frame that stands for a C function that is not recognised.
    pub fn unknown_c_function() -> (frame: StackFrame)
        ensures
            frame.name@ == "(unknown) [c function]"@,
            frame.relative_path@ == "(unknown)"@,
            frame.absolute_path is None,
            frame.lineno is None,
    {
        StackFrame {
            name: "(unknown) [c function]".to_string(),
            relative_path: "(unknown)".to_string(),
            absolute_path: None,
            lineno: None,
        }
    }

    /// The text of the frame.
    pub fn to_string(&self) -> (text: String)
        ensures
            text@ == self.text(),
    {
        let mut text: String = self.name.clone();
        text.append(" - ");
        text.append(self.path());
        match self.lineno {
            Some(lineno) => {
                text.append(":");
                append_numeral(&mut text, lineno as u64, 10);
            },
            None => {},
        }
        text
    }
}

/// The order of line numbers: an unknown line comes before every known one.
pub open spec fn lineno_order(a: Option<usize>, b: Option<usize>) -> Ordering {
    match (a, b) {
        (None, None) => Ordering::Equal,
        (None, Some(_)) => Ordering::Less,
        (Some(_), None) => Ordering::Greater,
        (Some(x), Some(y)) => if x < y {
            Ordering::Less
        } else if x > y {
            Ordering::Greater
        } else {
            Ordering::Equal
        },
    }
}

/// The order that goes by `first`, and by `second` between equals.
pub open spec fn then_order(first: Ordering, second: Ordering) -> Ordering {
    match first {
        Ordering::Equal => second,
        _ => first,
    }
}

/// The order of frames: by path, then by name, then by line.
pub open spec fn frame_order(a: StackFrame, b: StackFrame) -> Ordering {
    then_order(
        then_order(
            crate::text::text_order(a.best_path(), b.best_path()),
            crate::text::text_order(a.name@, b.name@),
        ),
        lineno_order(a.lineno, b.lineno),
    )
}

fn compare_lineno(a: Option<usize>, b: Option<usize>) -> (order: Ordering)
    ensures
        order == lineno_order(a, b),
{
    match (a, b) {
        (None, None) => Ordering::Equal,
        (None, Some(_)) => Ordering::Less,
        (Some(_), None) => Ordering::Greater,
        (Some(x), Some(y)) => if x < y {
            Ordering::Less
        } else if x > y {
            Ordering::Greater
        } else {
            Ordering::Equal
        },
    }
}

impl StackFrame {
    /// Compares two frames by path, then by name, then by line.
    pub fn cmp(&self, other: &StackFrame) -> (order: Ordering)
        ensures
            order == frame_order(*self, *other),
    {
        match compare_text(self.path(), other.path()) {
            Ordering::Equal => match compare_text(self.name.as_str(), other.name.as_str()) {
                Ordering::Equal => compare_lineno(self.lineno, other.lineno),
                order => order,
            },
            order => order,
        }
    }
}

impl PartialOrd for StackFrame {
    fn partial_cmp(&self, other: &StackFrame) -> (order: Option<Ordering>) {
        Some(self.cmp(other))
    }
}

impl vstd::std_specs::cmp::PartialOrdSpecImpl for StackFrame {
    open spec fn obeys_partial_cmp_spec() -> bool {
        true
    }

    open spec fn partial_cmp_spec(&self, other: &StackFrame) -> Option<Ordering> {
        Some(frame_order(*self, *other))
    }
}

/// Of two frames with different paths the one whose path comes first in the lexicographic
/// order of the bytes comes first: `i` is the place where the paths part.
pub proof fn frames_are_ordered_by_path(a: StackFrame, b: StackFrame, i: int)
    requires
        ({
            let p = match a.absolute_path {
                Some(path) => path@,
                None => a.relative_path@,
            };
            let q = match b.absolute_path {
                Some(path) => path@,
                None => b.relative_path@,
            };
            let (x, y) = (vstd::utf8::encode_utf8(p), vstd::utf8::encode_utf8(q));
            &&& 0 <= i <= x.len()
            &&& i < y.len()
            &&& x.take(i) == y.take(i)
            &&& i < x.len() ==> x[i] < y[i]
        }),
    ensures
        frame_order(a, b) is Less,
        frame_order(b, a) is Greater,
{
    crate::text::text_order_is_lexicographic(a.best_path(), b.best_path(), i);
    crate::text::text_order_is_lexicographic(b.best_path(), a.best_path(), i);
}

/// Of two frames with the same path and different names the one whose name comes first
/// comes first: `i` is the place where the names part.
pub proof fn frames_of_a_path_are_ordered_by_name(a: StackFrame, b: StackFrame, i: int)
    requires
        ({
            let p = match a.absolute_path {
                Some(path) => path@,
                None => a.relative_path@,
            };
            let q = match b.absolute_path {
                Some(path) => path@,
                None => b.relative_path@,
            };
            let (x, y) = (vstd::utf8::encode_utf8(a.name@), vstd::utf8::encode_utf8(b.name@));
            &&& p == q
            &&& 0 <= i <= x.len()
            &&& i < y.len()
            &&& x.take(i) == y.take(i)
            &&& i < x.len() ==> x[i] < y[i]
        }),
    ensures
        frame_order(a, b) is Less,
        frame_order(b, a) is Greater,
{
    crate::text::text_order_equal_is_identity(a.best_path(), b.best_path());
    crate::text::text_order_is_lexicographic(a.name@, b.name@, i);
    crate::text::text_order_is_lexicographic(b.name@, a.name@, i);
}

/// Frames with the same path and name are ordered by line, an unknown line first.
pub proof fn frames_of_a_name_are_ordered_by_line(a: StackFrame, b: StackFrame)
    requires
        a.name@ == b.name@,
        ({
            let p = match a.absolute_path {
                Some(path) => path@,
                None => a.relative_path@,
            };
            let q = match b.absolute_path {
                Some(path) => path@,
                None => b.relative_path@,
            };
            p == q
        }),
    ensures
        a.lineno is None && b.lineno is None ==> frame_order(a, b) is Equal,
        a.lineno is None && b.lineno is Some ==> frame_order(a, b) is Less,
        a.lineno is Some && b.lineno is None ==> frame_order(a, b) is Greater,
        a.lineno is Some && b.lineno is Some ==> {
            let (x, y) = (a.lineno->0, b.lineno->0);
            &&& x < y ==> frame_order(a, b) is Less
            &&& x > y ==> frame_order(a, b) is Greater
            &&& x == y ==> frame_order(a, b) is Equal
        },
{
    crate::text::text_order_equal_is_identity(a.best_path(), b.best_path());
    crate::text::text_order_equal_is_identity(a.name@, b.name@);
}

/// `partial_cmp` always decides, and as `cmp` does.
pub proof fn frames_always_compare(a: StackFrame, b: StackFrame)
    ensures
        vstd::std_specs::cmp::PartialOrdSpec::partial_cmp_spec(&a, &b) == Some(frame_order(a, b)),
{
}

/// The text of a frame is its name, a dash, its path, and behind a colon its line in
/// decimal where that is known; the path is the absolute one where there is one.
pub proof fn frame_text_is_spelled_out(frame: StackFrame)
    ensures
        ({
            let path = match frame.absolute_path {
                Some(path) => path@,
                None => frame.relative_path@,
            };
            let place = frame.name@ + seq![' ', '-', ' '] + path;
            &&& frame.best_path() == path
            &&& frame.lineno is None ==> frame.text() == place
            &&& frame.lineno matches Some(line) ==> frame.text() == place + seq![':']
                + crate::text::numeral(line as nat, 10)
        }),
{
    reveal_strlit(" - ");
    reveal_strlit(":");
    assert(" - "@ =~= seq![' ', '-', ' ']);
    assert(":"@ =~= seq![':']);
}

/// Any two frames compare, and the other way round when they are swapped.
pub proof fn frame_order_is_antisymmetric(a: StackFrame, b: StackFrame)
    ensures
        (frame_order(a, b) is Less) == (frame_order(b, a) is Greater),
        (frame_order(a, b) is Greater) == (frame_order(b, a) is Less),
        (frame_order(a, b) is Equal) == (frame_order(b, a) is Equal),
{
    crate::text::text_order_is_antisymmetric(a.best_path(), b.best_path());
    crate::text::text_order_is_antisymmetric(a.name@, b.name@);
}

/// Two frames are equal in the order exactly when path, name and line agree.
pub proof fn frame_order_equal(a: StackFrame, b: StackFrame)
    ensures
        (frame_order(a, b) is Equal) == (a.best_path() == b.best_path() && a.name@ == b.name@
            && a.lineno == b.lineno),
{
    crate::text::text_order_equal_is_identity(a.best_path(), b.best_path());
    crate::text::text_order_equal_is_identity(a.name@, b.name@);
}

/// The order of frames is transitive.
pub proof fn frame_order_is_transitive(a: StackFrame, b: StackFrame, c: StackFrame)
    requires
        !(frame_order(a, b) is Greater),
        !(frame_order(b, c) is Greater),
    ensures
        !(frame_order(a, c) is Greater),
        frame_order(a, b) is Less || frame_order(b, c) is Less ==> frame_order(a, c) is Less,
{
    let (p, q, r) = (a.best_path(), b.best_path(), c.best_path());
    crate::text::text_order_equal_is_identity(p, q);
    crate::text::text_order_equal_is_identity(q, r);
    crate::text::text_order_equal_is_identity(p, r);
    crate::text::text_order_equal_is_identity(a.name@, b.name@);
    crate::text::text_order_equal_is_identity(b.name@, c.name@);
    crate::text::text_order_equal_is_identity(a.name@, c.name@);
    if crate::text::text_order(p, q) is Less && crate::text::text_order(q, r) is Less {
        crate::text::text_order_is_transitive(p, q, r);
    }
    if crate::text::text_order(a.name@, b.name@) is Less && crate::text::text_order(
        b.name@,
        c.name@,
    ) is Less {
        crate::text::text_order_is_transitive(a.name@, b.name@, c.name@);
    }
}

} // verus!
