//! What a matcher asks for, written out for a reader.

use super::header::{HeaderCheck, HeaderCheckView};
use super::report::{holds_reason, reason_set, Reason, ReasonView};
use super::structured::{Body, BodyView, Conditions, WithHandler};
use crate::bindings::itertools::byte_strings;
use crate::bindings::json::json_pretty_text;
use crate::bindings::utf8::text_of;
use crate::stream::{check_text, is_text};
use crate::text::{
    join_lines, joined, lines_of, padded, push_padded, push_repeated, repeated, split_lines,
    texts, trim, trimmed, widest, widest_of,
};
use vstd::prelude::*;
use vstd::string::{StrSliceExecFns, StringExecFns};
use vstd::utf8::{decode_utf8, valid_utf8};

verus! {

/// A matcher written out: its name, and what it asks for, if anything.
#[derive(Debug, PartialEq, Eq)]
pub struct WithPrint {
    /// What kind of matcher it is
    pub name: String,
    /// The conditions, line by line, with a row of `^` under each part that
    /// the request did not meet
    pub body: Option<String>,
}

/// What a [`WithPrint`] stands for.
pub struct WithPrintView {
    pub name: Seq<char>,
    pub body: Option<Seq<char>>,
}

impl View for WithPrint {
    type V = WithPrintView;

    open spec fn view(&self) -> WithPrintView {
        WithPrintView {
            name: self.name@,
            body: match self.body {
                Some(body) => Some(body@),
                None => None,
            },
        }
    }
}

/// The line of a condition: a title of ten characters and what is expected.
pub open spec fn titled(title: Seq<char>, expected: Seq<char>) -> Seq<char> {
    title + expected
}

/// A row of `^` that stands under a text of the length `len`, behind
/// `indent` spaces.
pub open spec fn underline(indent: nat, len: nat) -> Seq<char> {
    repeated(' ', indent) + repeated('^', len)
}

/// The lines of a condition on the method or the URI: the condition, and a
/// row of `^` under its value where the request did not meet it.
pub open spec fn value_lines(title: Seq<char>, expected: Option<Seq<char>>, failed: bool) -> Seq<
    Seq<char>,
> {
    match expected {
        None => Seq::empty(),
        Some(value) => if failed {
            seq![titled(title, value), underline(10, value.len())]
        } else {
            seq![titled(title, value)]
        },
    }
}

/// The length of the longest name among the header checks.
pub open spec fn key_width(checks: Seq<(Seq<char>, HeaderCheckView)>) -> nat
    decreases checks.len(),
{
    if checks.len() == 0 {
        0
    } else {
        let before = key_width(checks.drop_last());
        if checks.last().0.len() > before {
            checks.last().0.len()
        } else {
            before
        }
    }
}

/// The values that a header check names.
pub open spec fn expected_values(check: HeaderCheckView) -> Seq<Seq<u8>> {
    match check {
        HeaderCheckView::AtLeastOnce(value) => seq![value],
        HeaderCheckView::ExactlyOnce(value) => seq![value],
        HeaderCheckView::All(values) => values,
    }
}

/// A header value as a reader sees it: the text that it is, or a word in
/// its place where it is none.
pub open spec fn shown(value: Seq<u8>) -> Seq<char> {
    if is_text(value) && valid_utf8(value) {
        decode_utf8(value)
    } else {
        "<binary>"@
    }
}

/// The line of one expected header value: the name in a column of the
/// width `width`, and the value.
pub open spec fn header_line(key: Seq<char>, value: Seq<u8>, width: nat) -> Seq<char> {
    "  "@ + padded(key, width) + ": "@ + shown(value)
}

/// The lines of the values that one header check names, each with a row of
/// `^` under it where the check failed.
pub open spec fn check_lines(key: Seq<char>, values: Seq<Seq<u8>>, width: nat, failed: bool) -> Seq<
    Seq<char>,
>
    decreases values.len(),
{
    if values.len() == 0 {
        Seq::empty()
    } else {
        let before = check_lines(key, values.drop_last(), width, failed);
        let value = values.last();
        if failed {
            before.push(header_line(key, value, width)).push(
                underline(width + 4, shown(value).len()),
            )
        } else {
            before.push(header_line(key, value, width))
        }
    }
}

/// The lines of all the header checks.
pub open spec fn checks_lines(
    checks: Seq<(Seq<char>, HeaderCheckView)>,
    width: nat,
    reasons: Set<ReasonView>,
) -> Seq<Seq<char>>
    decreases checks.len(),
{
    if checks.len() == 0 {
        Seq::empty()
    } else {
        let check = checks.last();
        checks_lines(checks.drop_last(), width, reasons) + check_lines(
            check.0,
            expected_values(check.1),
            width,
            reasons.contains(ReasonView::Header(check.0)),
        )
    }
}

/// The lines of the header checks under their title; none where there is
/// no check.
pub open spec fn headers_part(
    checks: Seq<(Seq<char>, HeaderCheckView)>,
    reasons: Set<ReasonView>,
) -> Seq<Seq<char>> {
    if checks.len() == 0 {
        Seq::empty()
    } else {
        seq!["headers:"@] + checks_lines(checks, key_width(checks), reasons)
    }
}

/// Each line behind a `>` and a space.
pub open spec fn quoted(lines: Seq<Seq<char>>) -> Seq<Seq<char>> {
    lines.map_values(|line: Seq<char>| "> "@ + line)
}

/// The width of the row under a quoted text: that of its longest line, and
/// 74 at most.
pub open spec fn quote_width(lines: Seq<Seq<char>>) -> nat {
    if widest(lines) < 74 {
        widest(lines)
    } else {
        74
    }
}

/// The lines of the condition on the body: a title that says how the body
/// is compared, the expected body without the white space around it, line
/// by line, and a row of `^`.
pub open spec fn body_part(body: Option<BodyView>) -> Seq<Seq<char>> {
    match body {
        None => Seq::empty(),
        Some(body) => {
            let (title, text) = match body {
                BodyView::String(text) => ("body:"@, text),
                BodyView::Json(document) => ("full json match:"@, json_pretty_text(document)),
                BodyView::JsonPartial(document) => (
                    "partial json match:"@,
                    json_pretty_text(document),
                ),
            };
            let lines = split_lines(trimmed(text));
            seq![title] + quoted(lines) + seq![underline(2, quote_width(lines))]
        },
    }
}

/// All the lines that say what the conditions ask for.
pub open spec fn conditions_lines(conditions: Conditions, reasons: Set<ReasonView>) -> Seq<
    Seq<char>,
> {
    value_lines("method:   "@, conditions.method, reasons.contains(ReasonView::Method))
        + value_lines("uri:      "@, conditions.uri, reasons.contains(ReasonView::Uri))
        + headers_part(conditions.headers, reasons) + body_part(conditions.body)
}

/// The conditions written out under the name `WithHandler`.
pub open spec fn conditions_print(
    conditions: Conditions,
    reasons: Set<ReasonView>,
) -> WithPrintView {
    WithPrintView {
        name: "WithHandler"@,
        body: Some(joined(conditions_lines(conditions, reasons))),
    }
}

/// A print with a name only.
pub fn named(name: &str) -> (r: WithPrint)
    ensures
        r@ == (WithPrintView { name: name@, body: None }),
{
    WithPrint { name: String::from_str(name), body: None }
}

/// A header value as a reader sees it.
pub fn show_value(value: &Vec<u8>) -> (r: String)
    ensures
        r@ == shown(value@),
{
    if check_text(value) {
        match text_of(value.as_slice()) {
            Some(text) => text,
            None => String::from_str("<binary>"),
        }
    } else {
        String::from_str("<binary>")
    }
}

/// Adds the lines of a condition on the method or the URI.
fn push_value_lines(lines: &mut Vec<String>, title: &str, expected: &Option<String>, failed: bool)
    ensures
        texts(final(lines)@) == texts(old(lines)@) + value_lines(
            title@,
            match *expected {
                Some(value) => Some(value@),
                None => None,
            },
            failed,
        ),
{
    proof {
        reveal_strlit(" ");
        reveal_strlit("^");
    }
    match expected {
        None => {
            assert(texts(lines@) =~= texts(old(lines)@) + Seq::<Seq<char>>::empty());
        },
        Some(value) => {
            let mut line = String::from_str(title);
            line.append(value.as_str());
            lines.push(line);
            if failed {
                let mut row = String::new();
                push_repeated(&mut row, " ", 10);
                push_repeated(&mut row, "^", value.as_str().unicode_len());
                assert(row@ =~= underline(10, value@.len()));
                lines.push(row);
                assert(texts(lines@) =~= texts(old(lines)@) + seq![
                    titled(title@, value@),
                    underline(10, value@.len()),
                ]);
            } else {
                assert(texts(lines@) =~= texts(old(lines)@) + seq![titled(title@, value@)]);
            }
        },
    }
}

/// The lines of one expected header value.
pub open spec fn one_value_lines(key: Seq<char>, value: Seq<u8>, width: nat, failed: bool) -> Seq<
    Seq<char>,
> {
    if failed {
        seq![header_line(key, value, width), underline(width + 4, shown(value).len())]
    } else {
        seq![header_line(key, value, width)]
    }
}

/// Adds the lines of one expected header value.
fn push_header_lines(
    lines: &mut Vec<String>,
    key: &String,
    value: &Vec<u8>,
    width: usize,
    failed: bool,
)
    ensures
        texts(final(lines)@) == texts(old(lines)@) + one_value_lines(
            key@,
            value@,
            width as nat,
            failed,
        ),
{
    proof {
        reveal_strlit(" ");
        reveal_strlit("^");
    }
    let text = show_value(value);
    let mut line = String::from_str("  ");
    push_padded(&mut line, key.as_str(), width);
    line.append(": ");
    line.append(text.as_str());
    assert(line@ =~= header_line(key@, value@, width as nat));
    lines.push(line);
    if failed {
        let mut row = String::new();
        push_repeated(&mut row, " ", width);
        push_repeated(&mut row, " ", 4);
        push_repeated(&mut row, "^", text.as_str().unicode_len());
        assert(row@ =~= underline((width + 4) as nat, shown(value@).len()));
        lines.push(row);
        assert(texts(lines@) =~= texts(old(lines)@) + one_value_lines(
            key@,
            value@,
            width as nat,
            failed,
        ));
    } else {
        assert(texts(lines@) =~= texts(old(lines)@) + one_value_lines(
            key@,
            value@,
            width as nat,
            failed,
        ));
    }
}

/// One more value at the end adds its lines at the end.
proof fn check_lines_push(
    key: Seq<char>,
    values: Seq<Seq<u8>>,
    value: Seq<u8>,
    width: nat,
    failed: bool,
)
    ensures
        check_lines(key, values.push(value), width, failed) == check_lines(
            key,
            values,
            width,
            failed,
        ) + one_value_lines(key, value, width, failed),
{
    assert(values.push(value).drop_last() =~= values);
    assert(check_lines(key, values.push(value), width, failed) =~= check_lines(
        key,
        values,
        width,
        failed,
    ) + one_value_lines(key, value, width, failed));
}

/// Adds the lines of the values that a header check names.
fn push_check_lines(
    lines: &mut Vec<String>,
    key: &String,
    check: &HeaderCheck,
    width: usize,
    failed: bool,
)
    ensures
        texts(final(lines)@) == texts(old(lines)@) + check_lines(
            key@,
            expected_values(check@),
            width as nat,
            failed,
        ),
{
    match check {
        HeaderCheck::AtLeastOnce(value) => {
            push_header_lines(lines, key, value, width, failed);
            proof {
                check_lines_push(key@, Seq::empty(), value@, width as nat, failed);
                assert(Seq::<Seq<u8>>::empty().push(value@) =~= seq![value@]);
                assert(texts(lines@) =~= texts(old(lines)@) + check_lines(
                    key@,
                    seq![value@],
                    width as nat,
                    failed,
                ));
            }
        },
        HeaderCheck::ExactlyOnce(value) => {
            push_header_lines(lines, key, value, width, failed);
            proof {
                check_lines_push(key@, Seq::empty(), value@, width as nat, failed);
                assert(Seq::<Seq<u8>>::empty().push(value@) =~= seq![value@]);
                assert(texts(lines@) =~= texts(old(lines)@) + check_lines(
                    key@,
                    seq![value@],
                    width as nat,
                    failed,
                ));
            }
        },
        HeaderCheck::All(values) => {
            let ghost all = byte_strings(values@);
            let mut i: usize = 0;
            assert(all.take(0) =~= Seq::empty());
            assert(texts(lines@) =~= texts(old(lines)@) + check_lines(
                key@,
                all.take(0),
                width as nat,
                failed,
            ));
            while i < values.len()
                invariant
                    i <= values.len(),
                    all == byte_strings(values@),
                    texts(lines@) == texts(old(lines)@) + check_lines(
                        key@,
                        all.take(i as int),
                        width as nat,
                        failed,
                    ),
                decreases values.len() - i,
            {
                let ghost before = texts(lines@);
                push_header_lines(lines, key, &values[i], width, failed);
                proof {
                    check_lines_push(key@, all.take(i as int), all[i as int], width as nat, failed);
                    assert(all.take(i + 1) =~= all.take(i as int).push(all[i as int]));
                    assert(texts(lines@) =~= texts(old(lines)@) + check_lines(
                        key@,
                        all.take(i + 1),
                        width as nat,
                        failed,
                    ));
                }
                i += 1;
            }
            assert(all.take(all.len() as int) =~= all);
        },
    }
}

/// What a list of header checks stands for.
pub open spec fn checks_view(checks: Seq<(String, HeaderCheck)>) -> Seq<
    (Seq<char>, HeaderCheckView),
> {
    checks.map_values(|check: (String, HeaderCheck)| (check.0@, check.1@))
}

/// The length of the longest name among the header checks.
fn key_width_of(checks: &Vec<(String, HeaderCheck)>) -> (r: usize)
    ensures
        r == key_width(checks_view(checks@)),
{
    let mut width: usize = 0;
    let mut i: usize = 0;
    assert(checks_view(checks@).take(0) =~= Seq::empty());
    while i < checks.len()
        invariant
            i <= checks.len(),
            width == key_width(checks_view(checks@).take(i as int)),
        decreases checks.len() - i,
    {
        let ghost next = checks_view(checks@).take(i + 1);
        assert(next.drop_last() =~= checks_view(checks@).take(i as int));
        assert(next.last().0 == checks@[i as int].0@);
        let len = checks[i].0.as_str().unicode_len();
        if len > width {
            width = len;
        }
        i += 1;
    }
    assert(checks_view(checks@).take(checks@.len() as int) =~= checks_view(checks@));
    width
}

/// Adds the lines of the header checks under their title.
fn push_headers_part(
    lines: &mut Vec<String>,
    checks: &Vec<(String, HeaderCheck)>,
    report: &Vec<Reason>,
)
    ensures
        texts(final(lines)@) == texts(old(lines)@) + headers_part(
            checks_view(checks@),
            reason_set(report@),
        ),
{
    let ghost all = checks_view(checks@);
    let ghost reasons = reason_set(report@);
    if checks.len() == 0 {
        assert(texts(lines@) =~= texts(old(lines)@) + Seq::<Seq<char>>::empty());
        return ;
    }
    let width = key_width_of(checks);
    lines.push(String::from_str("headers:"));
    let mut i: usize = 0;
    assert(all.take(0) =~= Seq::empty());
    assert(texts(lines@) =~= texts(old(lines)@) + seq!["headers:"@] + checks_lines(
        all.take(0),
        width as nat,
        reasons,
    ));
    while i < checks.len()
        invariant
            i <= checks.len(),
            all == checks_view(checks@),
            reasons == reason_set(report@),
            texts(lines@) == texts(old(lines)@) + seq!["headers:"@] + checks_lines(
                all.take(i as int),
                width as nat,
                reasons,
            ),
        decreases checks.len() - i,
    {
        let key = &checks[i].0;
        let failed = holds_reason(report, &Reason::Header(key.clone()));
        push_check_lines(lines, key, &checks[i].1, width, failed);
        proof {
            let next = all.take(i + 1);
            assert(next.drop_last() =~= all.take(i as int));
            assert(next.last() == (key@, checks@[i as int].1@));
            assert(texts(lines@) =~= texts(old(lines)@) + seq!["headers:"@] + checks_lines(
                next,
                width as nat,
                reasons,
            ));
        }
        i += 1;
    }
    assert(all.take(all.len() as int) =~= all);
}

/// Adds the lines of the condition on the body.
fn push_body_part(lines: &mut Vec<String>, body: &Option<Body>)
    ensures
        texts(final(lines)@) == texts(old(lines)@) + body_part(
            match *body {
                Some(body) => Some(body@),
                None => None,
            },
        ),
{
    proof {
        reveal_strlit(" ");
        reveal_strlit("^");
    }
    let (title, text) = match body {
        None => {
            assert(texts(lines@) =~= texts(old(lines)@) + Seq::<Seq<char>>::empty());
            return ;
        },
        Some(Body::String(text)) => ("body:", text.clone()),
        Some(Body::Json(document)) => ("full json match:", document.to_pretty_text()),
        Some(Body::JsonPartial(document)) => ("partial json match:", document.to_pretty_text()),
    };
    let pieces = lines_of(trim(text.as_str()));
    let ghost all = texts(pieces@);
    lines.push(String::from_str(title));
    let mut i: usize = 0;
    assert(all.take(0) =~= Seq::empty());
    assert(texts(lines@) =~= texts(old(lines)@) + seq![title@] + quoted(all.take(0)));
    while i < pieces.len()
        invariant
            i <= pieces.len(),
            all == texts(pieces@),
            texts(lines@) == texts(old(lines)@) + seq![title@] + quoted(all.take(i as int)),
        decreases pieces.len() - i,
    {
        let ghost before = texts(lines@);
        let mut line = String::from_str("> ");
        line.append(pieces[i].as_str());
        assert(line@ == "> "@ + all[i as int]);
        lines.push(line);
        assert(texts(lines@) =~= before.push("> "@ + all[i as int]));
        assert(quoted(all.take(i + 1)) =~= quoted(all.take(i as int)).push("> "@ + all[i as int]));
        assert(texts(lines@) =~= texts(old(lines)@) + seq![title@] + quoted(all.take(i + 1)));
        i += 1;
    }
    assert(all.take(all.len() as int) =~= all);
    let width = widest_of(&pieces);
    let width = if width < 74 {
        width
    } else {
        74
    };
    let mut row = String::new();
    push_repeated(&mut row, " ", 2);
    push_repeated(&mut row, "^", width);
    assert(row@ =~= underline(2, quote_width(all)));
    let ghost before = texts(lines@);
    assert(before == texts(old(lines)@) + seq![title@] + quoted(all));
    lines.push(row);
    assert(texts(lines@) =~= before.push(underline(2, quote_width(all))));
    assert(texts(lines@) =~= texts(old(lines)@) + (seq![title@] + quoted(all) + seq![
        underline(2, quote_width(all)),
    ]));
}

impl WithHandler {
    /// Writes out what the matcher asks for, with a row of `^` under each
    /// part for which `report` holds a reason.
    pub fn describe(&self, report: &Vec<Reason>) -> (r: WithPrint)
        ensures
            r@ == conditions_print(self@, reason_set(report@)),
    {
        let mut lines: Vec<String> = Vec::new();
        assert(texts(lines@) =~= Seq::empty());
        push_value_lines(
            &mut lines,
            "method:   ",
            &self.method,
            holds_reason(report, &Reason::Method),
        );
        push_value_lines(&mut lines, "uri:      ", &self.uri, holds_reason(report, &Reason::Uri));
        push_headers_part(&mut lines, &self.headers, report);
        push_body_part(&mut lines, &self.body);
        assert(texts(lines@) =~= conditions_lines(self@, reason_set(report@)));
        WithPrint { name: String::from_str("WithHandler"), body: Some(join_lines(&lines)) }
    }
}

} // verus!
