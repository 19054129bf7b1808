//! What a run reports.

use crate::text::join2;
use vstd::prelude::*;
use vstd::string::*;

verus! {

/// A broken expectation, under a stable label.
#[derive(Debug)]
pub struct Violation {
    pub label: String,
    pub detail: String,
}

/// A broken expectation, as a mathematical value.
#[verifier::ext_equal]
pub struct ViolationView {
    pub label: Seq<char>,
    pub detail: Seq<char>,
}

impl View for Violation {
    type V = ViolationView;

    open spec fn view(&self) -> ViolationView {
        ViolationView { label: self.label@, detail: self.detail@ }
    }
}

impl ViolationView {
    /// The line on a broken expectation.
    pub open spec fn line(self) -> Seq<char> {
        "TURSO_DST_VIOLATION label="@ + self.label + " detail="@ + self.detail
    }
}

impl Violation {
    /// The line on a broken expectation.
    pub fn line(&self) -> (line: String)
        ensures
            line@ == self@.line(),
    {
        let mut line = join2("TURSO_DST_VIOLATION label=", self.label.as_str());
        line.append(" detail=");
        line.append(self.detail.as_str());
        line
    }
}

/// The note on a connection that could not be closed: the reading one, or the
/// writing one.
pub fn close_note(reader: bool, error: &str) -> (note: String)
    ensures
        note@ == (if reader {
            "note: reader close error "@
        } else {
            "note: close error "@
        }) + error@,
{
    if reader {
        join2("note: reader close error ", error)
    } else {
        join2("note: close error ", error)
    }
}

/// Broken expectations, as mathematical values.
pub open spec fn violation_views(list: Seq<Violation>) -> Seq<ViolationView> {
    list.map_values(|v: Violation| v@)
}

/// Reports a broken expectation.
pub fn violation(label: &str, detail: String) -> (v: Violation)
    ensures
        v@ == (ViolationView { label: label@, detail: detail@ }),
{
    Violation { label: label.to_owned(), detail }
}

/// No broken expectation, or the one that there is.
pub fn listed(found: Option<Violation>) -> (list: Vec<Violation>)
    ensures
        violation_views(list@) == (match found {
            Some(v) => seq![v@],
            None => Seq::empty(),
        }),
{
    let mut list: Vec<Violation> = Vec::new();
    match found {
        Some(v) => {
            list.push(v);
            proof {
                assert(violation_views(list@) =~= seq![v@]);
            }
        },
        None => {
            proof {
                assert(violation_views(list@) =~= Seq::<ViolationView>::empty());
            }
        },
    }
    list
}

/// No broken expectation, or the one that there is, as a mathematical value.
pub open spec fn found(v: Option<ViolationView>) -> Seq<ViolationView> {
    match v {
        Some(v) => seq![v],
        None => Seq::empty(),
    }
}

/// No broken expectation.
pub fn no_violation() -> (list: Vec<Violation>)
    ensures
        violation_views(list@) == Seq::<ViolationView>::empty(),
{
    listed(None)
}

/// A single broken expectation.
pub fn one_violation(label: &str, detail: String) -> (list: Vec<Violation>)
    ensures
        violation_views(list@) == seq![ViolationView { label: label@, detail: detail@ }],
{
    listed(Some(violation(label, detail)))
}

/// Where a panic was caught, apart from statements and checkpoints.
#[derive(Clone, Copy, Debug, PartialEq, Eq, Structural)]
pub enum PanicPlace {
    BgThread,
    DropAfterCrash,
    Drop,
    Close,
}

impl PanicPlace {
    /// The label under which a panic is reported.
    pub open spec fn label(self) -> Seq<char> {
        match self {
            PanicPlace::BgThread => "panic-in-bg-thread"@,
            PanicPlace::DropAfterCrash => "panic-in-drop-after-crash"@,
            PanicPlace::Drop => "panic-in-drop"@,
            PanicPlace::Close => "panic-in-close"@,
        }
    }
}

/// Reports a panic.
pub fn panicked(place: PanicPlace, msg: String) -> (v: Violation)
    ensures
        v@ == (ViolationView { label: place.label(), detail: msg@ }),
{
    let label: &'static str = match place {
        PanicPlace::BgThread => "panic-in-bg-thread",
        PanicPlace::DropAfterCrash => "panic-in-drop-after-crash",
        PanicPlace::Drop => "panic-in-drop",
        PanicPlace::Close => "panic-in-close",
    };
    violation(label, msg)
}

/// How a broken expectation is put: one that was found is reported alone, under
/// its label and with its detail.
pub proof fn law_broken_expectation_is_put_plainly(v: ViolationView)
    ensures
        found(Some(v)) == seq![v],
        found(None) == Seq::<ViolationView>::empty(),
        v.line() == "TURSO_DST_VIOLATION label="@ + v.label + " detail="@ + v.detail,
        PanicPlace::BgThread.label() == "panic-in-bg-thread"@,
        PanicPlace::DropAfterCrash.label() == "panic-in-drop-after-crash"@,
        PanicPlace::Drop.label() == "panic-in-drop"@,
        PanicPlace::Close.label() == "panic-in-close"@,
{
}

} // verus!
