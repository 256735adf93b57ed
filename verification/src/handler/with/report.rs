//! Why a request did or did not match a case.

use vstd::prelude::*;
use vstd::string::StringExecFns;

verus! {

/// Reason for mismatch on a case
#[derive(Debug, PartialEq, Eq, Hash)]
pub enum Reason {
    /// Mismatch on the request method
    Method,
    /// Mismatch on the request URI
    Uri,
    /// Mismatch on one header, given by its name
    Header(String),
    /// Mismatch on the payload body
    Body,
}

/// What a [`Reason`] stands for.
pub enum ReasonView {
    Method,
    Uri,
    Header(Seq<char>),
    Body,
}

impl View for Reason {
    type V = ReasonView;

    open spec fn view(&self) -> ReasonView {
        match self {
            Reason::Method => ReasonView::Method,
            Reason::Uri => ReasonView::Uri,
            Reason::Header(name) => ReasonView::Header(name@),
            Reason::Body => ReasonView::Body,
        }
    }
}

/// The text that names a reason to a reader.
pub open spec fn reason_text(reason: ReasonView) -> Seq<char> {
    match reason {
        ReasonView::Method => "method"@,
        ReasonView::Uri => "uri"@,
        ReasonView::Header(name) => "header `"@ + name + "`"@,
        ReasonView::Body => "body"@,
    }
}

impl Clone for Reason {
    fn clone(&self) -> (r: Self)
        ensures
            r == *self,
    {
        match self {
            Reason::Method => Reason::Method,
            Reason::Uri => Reason::Uri,
            Reason::Header(name) => Reason::Header(name.clone()),
            Reason::Body => Reason::Body,
        }
    }
}

impl Reason {
    /// Returns a string representation for the [`Reason`]
    pub fn as_str(&self) -> (r: String)
        ensures
            r@ == reason_text(self@),
    {
        match self {
            Reason::Method => String::from_str("method"),
            Reason::Uri => String::from_str("uri"),
            Reason::Header(name) => {
                let mut text = String::from_str("header `");
                text.append(name.as_str());
                text.append("`");
                text
            },
            Reason::Body => String::from_str("body"),
        }
    }

    /// Whether two reasons are the same.
    pub fn same(&self, other: &Reason) -> (r: bool)
        ensures
            r == (self@ == other@),
    {
        match (self, other) {
            (Reason::Method, Reason::Method) => true,
            (Reason::Uri, Reason::Uri) => true,
            (Reason::Header(a), Reason::Header(b)) => *a == *b,
            (Reason::Body, Reason::Body) => true,
            _ => false,
        }
    }
}

/// The set of the reasons in a list.
pub open spec fn reason_set(reasons: Seq<Reason>) -> Set<ReasonView> {
    Set::new(|r: ReasonView| exists|i: int| 0 <= i < reasons.len() && #[trigger] reasons[i]@ == r)
}

/// Whether no reason stands twice in a list.
pub open spec fn distinct_reasons(reasons: Seq<Reason>) -> bool {
    forall|i: int, j: int|
        0 <= i < j < reasons.len() ==> #[trigger] reasons[i]@ != #[trigger] reasons[j]@
}

/// Report if a `with` clause for a case matched with an incoming request
///
/// This is used to generate debugging information when no cases match a request.
#[derive(Debug, Clone, PartialEq, Eq)]
pub enum Report {
    /// The request is a match
    Match,
    /// The request is a mismatch
    ///
    /// This can hold the [`Reason`]s that tell why the case did not match the
    /// request. Their order says nothing, and none stands twice in a report
    /// that this library made. An empty list is a mismatch without a reason.
    Mismatch(Vec<Reason>),
}

/// What a [`Report`] stands for.
pub enum ReportView {
    Match,
    Mismatch(Set<ReasonView>),
}

impl View for Report {
    type V = ReportView;

    open spec fn view(&self) -> ReportView {
        match self {
            Report::Match => ReportView::Match,
            Report::Mismatch(reasons) => ReportView::Mismatch(reason_set(reasons@)),
        }
    }
}

/// Whether `reasons` holds `reason`.
pub fn holds_reason(reasons: &Vec<Reason>, reason: &Reason) -> (r: bool)
    ensures
        r == reason_set(reasons@).contains(reason@),
{
    let mut i: usize = 0;
    while i < reasons.len()
        invariant
            i <= reasons.len(),
            forall|k: int| 0 <= k < i ==> #[trigger] reasons[k]@ != reason@,
        decreases reasons.len() - i,
    {
        if reasons[i].same(reason) {
            return true;
        }
        i += 1;
    }
    false
}

/// Adds `reason` to `reasons` unless it is there already.
pub fn note_reason(reasons: &mut Vec<Reason>, reason: Reason)
    requires
        distinct_reasons(old(reasons)@),
    ensures
        distinct_reasons(final(reasons)@),
        reason_set(final(reasons)@) == reason_set(old(reasons)@).insert(reason@),
{
    if !holds_reason(reasons, &reason) {
        let ghost before = reasons@;
        reasons.push(reason);
        assert forall|r: ReasonView| #[trigger]
            reason_set(reasons@).contains(r) == reason_set(before).insert(reason@).contains(
                r,
            ) by {
            if reason_set(reasons@).contains(r) {
                let i = choose|i: int| 0 <= i < reasons@.len() && #[trigger] reasons@[i]@ == r;
                if i < before.len() {
                    assert(before[i]@ == r);
                }
            }
            if reason_set(before).contains(r) {
                let i = choose|i: int| 0 <= i < before.len() && #[trigger] before[i]@ == r;
                assert(reasons@[i]@ == r);
            }
            if r == reason@ {
                assert(reasons@[before.len() as int]@ == r);
            }
        }
        assert(reason_set(reasons@) =~= reason_set(before).insert(reason@));
    } else {
        assert(reason_set(reasons@) =~= reason_set(reasons@).insert(reason@));
    }
}

impl Report {
    /// Whether the report is well formed: no reason stands twice in it.
    pub open spec fn wf(&self) -> bool {
        match self {
            Report::Match => true,
            Report::Mismatch(reasons) => distinct_reasons(reasons@),
        }
    }

    /// The report of a plain yes or no: a `false` is a mismatch without a
    /// reason.
    pub fn from_bool(value: bool) -> (r: Report)
        ensures
            r.wf(),
            r@ == if value {
                ReportView::Match
            } else {
                ReportView::Mismatch(Set::empty())
            },
    {
        if value {
            Report::Match
        } else {
            let reasons: Vec<Reason> = Vec::new();
            assert(reason_set(reasons@) =~= Set::empty());
            Report::Mismatch(reasons)
        }
    }

    /// The report of a list of reasons: a match if the list is empty, else a
    /// mismatch for the set of the reasons in it.
    pub fn from_reasons(value: Vec<Reason>) -> (r: Report)
        ensures
            r.wf(),
            r@ == if value@.len() == 0 {
                ReportView::Match
            } else {
                ReportView::Mismatch(reason_set(value@))
            },
    {
        if value.len() == 0 {
            return Report::Match;
        }
        let mut reasons: Vec<Reason> = Vec::new();
        let mut i: usize = 0;
        assert(reason_set(reasons@) =~= reason_set(value@.take(0)));
        while i < value.len()
            invariant
                i <= value.len(),
                distinct_reasons(reasons@),
                reason_set(reasons@) == reason_set(value@.take(i as int)),
            decreases value.len() - i,
        {
            note_reason(&mut reasons, value[i].clone());
            proof {
                let a = value@.take(i as int);
                let b = value@.take(i as int + 1);
                assert forall|r: ReasonView| #[trigger]
                    reason_set(b).contains(r) == reason_set(a).insert(value@[i as int]@).contains(
                        r,
                    ) by {
                    if reason_set(b).contains(r) {
                        let k = choose|k: int| 0 <= k < b.len() && #[trigger] b[k]@ == r;
                        if k < i {
                            assert(a[k]@ == r);
                        }
                    }
                    if reason_set(a).contains(r) {
                        let k = choose|k: int| 0 <= k < a.len() && #[trigger] a[k]@ == r;
                        assert(b[k]@ == r);
                    }
                    if r == value@[i as int]@ {
                        assert(b[i as int]@ == r);
                    }
                }
                assert(reason_set(b) =~= reason_set(a).insert(value@[i as int]@));
            }
            i += 1;
        }
        assert(value@.take(value@.len() as int) =~= value@);
        Report::Mismatch(reasons)
    }

    /// The report of at most one reason.
    pub fn from_reason(value: Option<Reason>) -> (r: Report)
        ensures
            r.wf(),
            r@ == match value {
                None => ReportView::Match,
                Some(reason) => ReportView::Mismatch(set![reason@]),
            },
    {
        match value {
            None => Report::Match,
            Some(reason) => {
                let mut reasons: Vec<Reason> = Vec::new();
                assert(reason_set(reasons@) =~= Set::empty());
                note_reason(&mut reasons, reason);
                assert(reason_set(reasons@) =~= set![reason@]);
                Report::Mismatch(reasons)
            },
        }
    }

    /// Whether the report is a match.
    pub fn is_match(&self) -> (r: bool)
        ensures
            r == (self@ is Match),
    {
        match self {
            Report::Match => true,
            Report::Mismatch(_) => false,
        }
    }
}

} // verus!
