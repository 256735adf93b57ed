//! What the connector tells a reader about a request that no case took.

use crate::case::Case;
use crate::connector::InnerConnector;
use crate::handler::with::print::{show_value, shown, WithPrint, WithPrintView};
use crate::handler::with::report::{reason_set, reason_text, Reason, ReasonView};
use crate::message::{headers_view, Header, HeaderView, Request, RequestView};
use crate::text::{
    decimal, join_lines, joined, lines_of, padded, push_decimal, push_padded, split_lines, texts,
};
use vstd::prelude::*;
use vstd::string::{StrSliceExecFns, StringExecFns};

verus! {

/// Each line behind a bar.
pub open spec fn barred(lines: Seq<Seq<char>>) -> Seq<Seq<char>> {
    lines.map_values(|line: Seq<char>| " | "@ + line)
}

/// The length of the longest name among the headers.
pub open spec fn name_width(headers: Seq<HeaderView>) -> nat
    decreases headers.len(),
{
    if headers.len() == 0 {
        0
    } else {
        let before = name_width(headers.drop_last());
        if headers.last().name.len() > before {
            headers.last().name.len()
        } else {
            before
        }
    }
}

/// The lines of the headers of the request: each name in a column of the
/// width `width`, and the value.
pub open spec fn header_rows(headers: Seq<HeaderView>, width: nat) -> Seq<Seq<char>> {
    headers.map_values(
        |header: HeaderView| " |   "@ + padded(header.name, width) + ": "@ + shown(header.value),
    )
}

/// The lines that show the request: its method, its URI, its headers where
/// it has any, and its body where it is not empty.
pub open spec fn request_lines(req: RequestView) -> Seq<Seq<char>> {
    seq![
        "--> no matching case for request"@,
        " | "@,
        " = the incoming request did not match any known cases."@,
        " = incoming request:"@,
        " | "@,
        " | method:   "@ + req.method,
        " | uri:      "@ + req.uri,
    ] + (if req.headers.len() > 0 {
        seq![" | headers:"@] + header_rows(req.headers, name_width(req.headers))
    } else {
        Seq::empty()
    }) + seq![" | "@] + (if req.body.len() > 0 {
        seq![" | body:"@] + barred(split_lines(req.body)) + seq![" | "@]
    } else {
        Seq::empty()
    })
}

/// The lines that name the reasons, in their order.
pub open spec fn reason_rows(reasons: Seq<Reason>) -> Seq<Seq<char>> {
    reasons.map_values(|reason: Reason| " | - "@ + reason_text(reason@))
}

/// The lines that show one case: its number and the name of its matcher,
/// what the matcher asks for, and the reasons for which it did not match.
pub open spec fn case_lines(id: nat, print: WithPrintView, reasons: Seq<Reason>) -> Seq<Seq<char>> {
    seq!["--> case "@ + decimal(id) + " `"@ + print.name + "`"@] + (match print.body {
        Some(body) => seq![" | "@] + barred(split_lines(body)) + seq![" | "@],
        None => Seq::empty(),
    }) + (if reasons.len() > 0 {
        seq![" = this case doesn't match the request on the following attributes:"@]
            + reason_rows(reasons) + seq![" | "@]
    } else {
        Seq::empty()
    })
}

/// The lines that show the first `upto` cases, each with the reasons that
/// `reports` holds for it.
pub open spec fn cases_lines(cases: Seq<Case>, reports: Seq<Vec<Reason>>, upto: int) -> Seq<
    Seq<char>,
>
    decreases upto,
{
    if upto <= 0 || upto > cases.len() || upto > reports.len() {
        Seq::empty()
    } else {
        cases_lines(cases, reports, upto - 1) + case_lines(
            (upto - 1) as nat,
            cases[upto - 1].with.pretty(reason_set(reports[upto - 1]@)),
            reports[upto - 1]@,
        )
    }
}

/// How many cases are shown: all those for which there are reasons.
pub open spec fn shown_cases(cases: Seq<Case>, reports: Seq<Vec<Reason>>) -> int {
    if cases.len() <= reports.len() {
        cases.len() as int
    } else {
        reports.len() as int
    }
}

/// The whole text: the request, the cases, and an empty line at the end.
pub open spec fn missing_text(cases: Seq<Case>, req: RequestView, reports: Seq<Vec<Reason>>) -> Seq<
    char,
> {
    joined(
        request_lines(req) + cases_lines(cases, reports, shown_cases(cases, reports)) + seq![
            Seq::empty(),
        ],
    )
}

/// Adds a line made of `prefix` and `text`.
fn push_line(lines: &mut Vec<String>, prefix: &str, text: &str)
    ensures
        texts(final(lines)@) == texts(old(lines)@).push(prefix@ + text@),
{
    let mut line = String::from_str(prefix);
    line.append(text);
    lines.push(line);
    assert(texts(lines@) =~= texts(old(lines)@).push(prefix@ + text@));
}

/// Adds the pieces of `text` between its line feeds, each behind a bar.
fn push_barred(lines: &mut Vec<String>, text: &str)
    ensures
        texts(final(lines)@) == texts(old(lines)@) + barred(split_lines(text@)),
{
    let pieces = lines_of(text);
    let ghost all = texts(pieces@);
    let mut i: usize = 0;
    assert(all.take(0) =~= Seq::empty());
    assert(texts(lines@) =~= texts(old(lines)@) + barred(all.take(0)));
    while i < pieces.len()
        invariant
            i <= pieces.len(),
            all == texts(pieces@),
            texts(lines@) == texts(old(lines)@) + barred(all.take(i as int)),
        decreases pieces.len() - i,
    {
        push_line(lines, " | ", pieces[i].as_str());
        assert(barred(all.take(i + 1)) =~= barred(all.take(i as int)).push(" | "@ + all[i as int]));
        i += 1;
    }
    assert(all.take(all.len() as int) =~= all);
}

/// The length of the longest name among the headers.
fn name_width_of(headers: &Vec<Header>) -> (r: usize)
    ensures
        r == name_width(headers_view(headers@)),
{
    let ghost all = headers_view(headers@);
    let mut width: usize = 0;
    let mut i: usize = 0;
    assert(all.take(0) =~= Seq::empty());
    while i < headers.len()
        invariant
            i <= headers.len(),
            all == headers_view(headers@),
            width == name_width(all.take(i as int)),
        decreases headers.len() - i,
    {
        let ghost next = all.take(i + 1);
        assert(next.drop_last() =~= all.take(i as int));
        assert(next.last().name == headers@[i as int].name@);
        let len = headers[i].name.as_str().unicode_len();
        if len > width {
            width = len;
        }
        i += 1;
    }
    assert(all.take(all.len() as int) =~= all);
    width
}

/// Adds the lines that show the request.
fn push_request_lines(lines: &mut Vec<String>, req: &Request)
    requires
        old(lines)@.len() == 0,
    ensures
        texts(final(lines)@) == request_lines(req@),
{
    push_line(lines, "--> no matching case for request", "");
    push_line(lines, " | ", "");
    push_line(lines, " = the incoming request did not match any known cases.", "");
    push_line(lines, " = incoming request:", "");
    push_line(lines, " | ", "");
    push_line(lines, " | method:   ", req.method.as_str());
    push_line(lines, " | uri:      ", req.uri.as_str());
    proof {
        reveal_strlit("");
        assert(""@ =~= Seq::<char>::empty());
        assert("--> no matching case for request"@ + ""@ =~= "--> no matching case for request"@);
        assert(" | "@ + ""@ =~= " | "@);
        assert(" = the incoming request did not match any known cases."@ + ""@
            =~= " = the incoming request did not match any known cases."@);
        assert(" = incoming request:"@ + ""@ =~= " = incoming request:"@);
    }
    let ghost head = texts(lines@);
    assert(head =~= seq![
        "--> no matching case for request"@,
        " | "@,
        " = the incoming request did not match any known cases."@,
        " = incoming request:"@,
        " | "@,
        " | method:   "@ + req@.method,
        " | uri:      "@ + req@.uri,
    ]);
    let ghost headers = req@.headers;
    if req.headers.len() > 0 {
        let width = name_width_of(&req.headers);
        push_line(lines, " | headers:", "");
        assert(" | headers:"@ + ""@ =~= " | headers:"@);
        let mut i: usize = 0;
        assert(headers.take(0) =~= Seq::empty());
        assert(texts(lines@) =~= head + seq![" | headers:"@] + header_rows(
            headers.take(0),
            width as nat,
        ));
        while i < req.headers.len()
            invariant
                i <= req.headers.len(),
                headers == req@.headers,
                texts(lines@) == head + seq![" | headers:"@] + header_rows(
                    headers.take(i as int),
                    width as nat,
                ),
            decreases req.headers.len() - i,
        {
            let ghost before = texts(lines@);
            let header = &req.headers[i];
            let mut line = String::from_str(" |   ");
            push_padded(&mut line, header.name.as_str(), width);
            line.append(": ");
            line.append(show_value(&header.value).as_str());
            lines.push(line);
            proof {
                let row = " |   "@ + padded(header@.name, width as nat) + ": "@ + shown(
                    header@.value,
                );
                assert(line@ =~= row);
                assert(texts(lines@) =~= before.push(row));
                assert(headers[i as int] == header@);
                assert(header_rows(headers.take(i + 1), width as nat) =~= header_rows(
                    headers.take(i as int),
                    width as nat,
                ).push(row));
            }
            i += 1;
        }
        assert(headers.take(headers.len() as int) =~= headers);
    } else {
        assert(texts(lines@) =~= head + Seq::<Seq<char>>::empty());
    }
    let ghost middle = texts(lines@);
    push_line(lines, " | ", "");
    if !req.body.as_str().is_empty() {
        push_line(lines, " | body:", "");
        assert(" | body:"@ + ""@ =~= " | body:"@);
        push_barred(lines, req.body.as_str());
        push_line(lines, " | ", "");
        assert(texts(lines@) =~= middle + seq![" | "@] + (seq![" | body:"@] + barred(
            split_lines(req@.body),
        ) + seq![" | "@]));
    } else {
        assert(texts(lines@) =~= middle + seq![" | "@] + Seq::<Seq<char>>::empty());
    }
}

/// Adds the lines that show one case.
fn push_case_lines(lines: &mut Vec<String>, id: usize, print: &WithPrint, reasons: &Vec<Reason>)
    ensures
        texts(final(lines)@) == texts(old(lines)@) + case_lines(id as nat, print@, reasons@),
{
    proof {
        reveal_strlit("");
        assert(""@ =~= Seq::<char>::empty());
        assert(" | "@ + ""@ =~= " | "@);
        assert(" = this case doesn't match the request on the following attributes:"@ + ""@
            =~= " = this case doesn't match the request on the following attributes:"@);
    }
    let mut title = String::from_str("--> case ");
    push_decimal(&mut title, id);
    title.append(" `");
    title.append(print.name.as_str());
    title.append("`");
    lines.push(title);
    let ghost first = seq!["--> case "@ + decimal(id as nat) + " `"@ + print@.name + "`"@];
    assert(texts(lines@) =~= texts(old(lines)@) + first);
    let ghost body_rows = match print@.body {
        Some(body) => seq![" | "@] + barred(split_lines(body)) + seq![" | "@],
        None => Seq::empty(),
    };
    match &print.body {
        Some(body) => {
            push_line(lines, " | ", "");
            push_barred(lines, body.as_str());
            push_line(lines, " | ", "");
            assert(texts(lines@) =~= texts(old(lines)@) + first + body_rows);
        },
        None => {
            assert(texts(lines@) =~= texts(old(lines)@) + first + body_rows);
        },
    }
    let ghost middle = texts(lines@);
    if reasons.len() > 0 {
        push_line(
            lines,
            " = this case doesn't match the request on the following attributes:",
            "",
        );
        let ghost start = texts(lines@);
        let mut i: usize = 0;
        assert(reasons@.take(0) =~= Seq::empty());
        assert(texts(lines@) =~= start + reason_rows(reasons@.take(0)));
        while i < reasons.len()
            invariant
                i <= reasons.len(),
                texts(lines@) == start + reason_rows(reasons@.take(i as int)),
            decreases reasons.len() - i,
        {
            push_line(lines, " | - ", reasons[i].as_str().as_str());
            assert(reason_rows(reasons@.take(i + 1)) =~= reason_rows(reasons@.take(i as int)).push(
                " | - "@ + reason_text(reasons@[i as int]@),
            ));
            i += 1;
        }
        assert(reasons@.take(reasons@.len() as int) =~= reasons@);
        push_line(lines, " | ", "");
        assert(texts(lines@) =~= middle + (seq![
            " = this case doesn't match the request on the following attributes:"@,
        ] + reason_rows(reasons@) + seq![" | "@]));
    } else {
        assert(texts(lines@) =~= middle + Seq::<Seq<char>>::empty());
    }
}

impl InnerConnector {
    /// Writes out, for a reader, a request that no case took: the request,
    /// and each case with what its matcher asks for and the reasons for
    /// which it did not match. `reports` holds the reasons of each case, in
    /// the order of the cases.
    pub fn print_report(&self, req: &Request, reports: &Vec<Vec<Reason>>) -> (r: String)
        ensures
            r@ == missing_text(self.cases@, req@, reports@),
    {
        let mut lines: Vec<String> = Vec::new();
        push_request_lines(&mut lines, req);
        let count = if self.cases.len() <= reports.len() {
            self.cases.len()
        } else {
            reports.len()
        };
        let ghost head = texts(lines@);
        let mut i: usize = 0;
        assert(texts(lines@) =~= head + cases_lines(self.cases@, reports@, 0));
        while i < count
            invariant
                i <= count,
                count <= self.cases.len(),
                count <= reports.len(),
                texts(lines@) == head + cases_lines(self.cases@, reports@, i as int),
            decreases count - i,
        {
            let print = self.cases[i].with.print_pretty(&reports[i]);
            push_case_lines(&mut lines, i, &print, &reports[i]);
            assert(texts(lines@) =~= head + cases_lines(self.cases@, reports@, i + 1));
            i += 1;
        }
        let ghost before = texts(lines@);
        lines.push(String::new());
        assert(texts(lines@) =~= before + seq![Seq::<char>::empty()]);
        join_lines(&lines)
    }
}

} // verus!
