//! The template engine: variable substitution and bounded for-block
//! expansion over an HTML body. The policy is fail-closed: on any
//! malformed tag the pristine input is returned unchanged, never a
//! partially rewritten page.

use vstd::prelude::*;
use vstd::string::StrSliceExecFns;
use vstd::string::StringExecFns;
use crate::text::{
    contains_seq, contains_str, split_seq, split_str, replace_seq, replace_str, repeat_seq,
    repeat_append, is_dec_seq, dec_val, parse_usize_dec,
};

verus! {

/// A template variable binding: a name bound to a value produced on
/// demand, supplied by the embedder per render.
pub trait TemplateVar {
    /// The text substituted for the variable's tag.
    fn value(&self) -> String;
}

/// The first `i` bindings substituted into `html`, in order: every
/// occurrence of `<#>var.` followed by the binding's name is replaced by
/// its value.
pub open spec fn subst_fold(
    html: Seq<char>,
    values: Seq<(Seq<char>, Seq<char>)>,
    i: int,
) -> Seq<char>
    decreases i,
{
    if i <= 0 {
        html
    } else {
        replace_seq(subst_fold(html, values, i - 1), "<#>var."@ + values[i - 1].0, values[i - 1].1)
    }
}

/// A for-tag bound read as a number: all-digit text that fits the
/// machine; anything else counts as zero.
pub open spec fn parse_or_zero(s: Seq<char>) -> int {
    if is_dec_seq(s) && dec_val(s) <= usize::MAX {
        dec_val(s)
    } else {
        0
    }
}

/// How many times a for block's body is written out.
pub open spec fn rep_count(start: int, end: int) -> nat {
    if end > start {
        (end - start) as nat
    } else {
        0
    }
}

/// The state of the for-block scan: whether a block is open, the exact
/// text captured so far (tag lines included), the body text, the bounds,
/// and the page being rewritten.
pub struct ForState {
    pub enable: bool,
    pub replace_buf: Seq<char>,
    pub text: Seq<char>,
    pub start: int,
    pub end: int,
    pub html: Seq<char>,
    pub error: bool,
}

/// The scan state before any line: nothing captured, the substituted page
/// untouched.
pub open spec fn for_init(html: Seq<char>) -> ForState {
    ForState {
        enable: false,
        replace_buf: Seq::empty(),
        text: Seq::empty(),
        start: 0,
        end: 0,
        html,
        error: false,
    }
}

/// One line of the for-block scan. An opening tag (re)starts a capture —
/// so blocks do not nest — and reads its `start,end` bounds from the rest
/// of the line with spaces stripped; a bound without a comma is a syntax
/// error. While a capture is open, tag-free lines are gathered. The
/// closing tag replaces every occurrence of the whole captured text by
/// `end - start` copies of the body and one `\r\n` each.
pub open spec fn for_step(st: ForState, line: Seq<char>) -> ForState {
    if st.error {
        st
    } else if contains_seq(line, "<#>control.for"@) && !contains_seq(
        line,
        "<#>control.for_end"@,
    ) {
        let data = replace_seq(
            replace_seq(line, "<#>control.for"@, Seq::empty()),
            " "@,
            Seq::empty(),
        );
        if !contains_seq(data, ","@) {
            ForState { error: true, ..st }
        } else {
            let parts = split_seq(data, ","@);
            if parts.len() >= 2 {
                ForState {
                    enable: true,
                    replace_buf: line + "\r\n"@,
                    text: Seq::empty(),
                    start: parse_or_zero(parts[0]),
                    end: parse_or_zero(parts[1]),
                    ..st
                }
            } else {
                ForState {
                    enable: false,
                    replace_buf: Seq::empty(),
                    text: Seq::empty(),
                    start: 0,
                    end: 0,
                    ..st
                }
            }
        }
    } else if contains_seq(line, "<#>control.for_end"@) && st.enable {
        let buf = st.replace_buf + line + "\r\n"@;
        ForState {
            enable: false,
            replace_buf: buf,
            html: replace_seq(
                st.html,
                buf,
                repeat_seq(st.text + "\r\n"@, rep_count(st.start, st.end)),
            ),
            ..st
        }
    } else if st.enable && !contains_seq(line, "<#>control.for"@) {
        ForState { text: st.text + line, replace_buf: st.replace_buf + line + "\r\n"@, ..st }
    } else {
        st
    }
}

/// The scan state after the first `i` lines.
pub open spec fn for_fold(html: Seq<char>, lines: Seq<Seq<char>>, i: int) -> ForState
    decreases i,
{
    if i <= 0 {
        for_init(html)
    } else {
        for_step(for_fold(html, lines, i - 1), lines[i - 1])
    }
}

/// A syntax error, once hit, stays.
proof fn lemma_error_persists(html: Seq<char>, lines: Seq<Seq<char>>, i: int, j: int)
    requires
        0 <= i <= j,
        for_fold(html, lines, i).error,
    ensures
        for_fold(html, lines, j).error,
    decreases j - i,
{
    if i < j {
        lemma_error_persists(html, lines, i, j - 1);
    }
}

/// What rendering gives: the input unchanged unless it holds the root tag
/// and a line break; then the substituted text, unless a variable tag
/// survives substitution or a for tag is malformed — in either of those
/// cases the pristine input — with well-formed for blocks expanded.
pub open spec fn spec_render(html: Seq<char>, values: Seq<(Seq<char>, Seq<char>)>) -> Seq<char> {
    if contains_seq(html, "<#>"@) && contains_seq(html, "\n"@) {
        let sub = subst_fold(html, values, values.len() as int);
        if contains_seq(sub, "<#>var"@) {
            html
        } else {
            let lines = split_seq(sub, "\r\n"@);
            let fin = for_fold(sub, lines, lines.len() as int);
            if fin.error {
                html
            } else {
                fin.html
            }
        }
    } else {
        html
    }
}

/// Reads a for-tag bound, taking unparsable text as zero.
fn parse_bound(s: &str) -> (r: usize)
    ensures
        r == parse_or_zero(s@),
{
    match parse_usize_dec(s) {
        Some(v) => v,
        None => 0,
    }
}

/// Renders a template against already-evaluated bindings. The whole
/// result is a function of the inputs alone: rendering the same template
/// and values again gives the same text.
pub fn render_template(html: &str, values: &Vec<(String, String)>) -> (r: String)
    ensures
        r@ == spec_render(html@, values.deep_view()),
{
    proof {
        reveal_strlit("<#>");
        reveal_strlit("\n");
        reveal_strlit("<#>var");
        reveal_strlit("<#>var.");
        reveal_strlit("\r\n");
    }
    let ghost vals = values.deep_view();
    if !(contains_str(html, "<#>") && contains_str(html, "\n")) {
        return String::from_str(html);
    }
    // Variable substitution, in binding order.
    let mut new_html = String::from_str(html);
    let n = values.len();
    let mut i: usize = 0;
    while i < n
        invariant
            n == values@.len(),
            vals == values.deep_view(),
            0 <= i <= n,
            new_html@ == subst_fold(html@, vals, i as int),
        decreases n - i,
    {
        proof {
            reveal_strlit("<#>var.");
        }
        assert(values[i as int].1@ == vals[i as int].1);
        let mut tag = String::from_str("<#>var.");
        tag.append(values[i].0.as_str());
        assert(tag@ == "<#>var."@ + vals[i as int].0);
        new_html = replace_str(new_html.as_str(), tag.as_str(), values[i].1.as_str());
        i += 1;
    }
    // Fail closed: a variable tag that survived substitution is a syntax
    // error, and the pristine input is returned.
    if contains_str(new_html.as_str(), "<#>var") {
        return String::from_str(html);
    }
    let ghost sub = new_html@;
    // For-block expansion, scanning the substituted text line by line.
    let lines = split_str(new_html.as_str(), "\r\n");
    let ghost lines_spec = lines.deep_view();
    let m = lines.len();
    let mut current = new_html;
    let mut enable = false;
    let mut replace_buf = String::new();
    let mut text = String::new();
    let mut start: usize = 0;
    let mut end: usize = 0;
    let mut j: usize = 0;
    while j < m
        invariant
            m == lines@.len(),
            lines_spec == lines.deep_view(),
            0 <= j <= m,
            vals == values.deep_view(),
            contains_seq(html@, "<#>"@) && contains_seq(html@, "\n"@),
            sub == subst_fold(html@, vals, vals.len() as int),
            !contains_seq(sub, "<#>var"@),
            lines_spec == split_seq(sub, "\r\n"@),
            for_fold(sub, lines_spec, j as int) == (ForState {
                enable,
                replace_buf: replace_buf@,
                text: text@,
                start: start as int,
                end: end as int,
                html: current@,
                error: false,
            }),
            enable ==> replace_buf@.len() >= 1,
        decreases m - j,
    {
        proof {
            reveal_strlit("<#>control.for");
            reveal_strlit("<#>control.for_end");
            reveal_strlit(",");
            reveal_strlit(" ");
            reveal_strlit("\r\n");
            reveal_strlit("");
            assert(""@ =~= Seq::<char>::empty());
        }
        let line = lines[j].as_str();
        assert(line@ == lines_spec[j as int]);
        let ghost st = for_fold(sub, lines_spec, j as int);
        if contains_str(line, "<#>control.for") && !contains_str(line, "<#>control.for_end") {
            let data = replace_str(line, "<#>control.for", "");
            let data = replace_str(data.as_str(), " ", "");
            if !contains_str(data.as_str(), ",") {
                proof {
                    assert(for_fold(sub, lines_spec, j + 1).error);
                    lemma_error_persists(sub, lines_spec, j + 1, lines_spec.len() as int);
                }
                return String::from_str(html);
            }
            let parts = split_str(data.as_str(), ",");
            if parts.len() >= 2 {
                assert(parts[0]@ == split_seq(data@, ","@)[0]);
                assert(parts[1]@ == split_seq(data@, ","@)[1]);
                start = parse_bound(parts[0].as_str());
                end = parse_bound(parts[1].as_str());
                replace_buf = String::from_str(line);
                replace_buf.append("\r\n");
                text = String::new();
                enable = true;
            } else {
                replace_buf = String::new();
                text = String::new();
                start = 0;
                end = 0;
                enable = false;
            }
        } else if contains_str(line, "<#>control.for_end") && enable {
            enable = false;
            replace_buf.append(line);
            replace_buf.append("\r\n");
            let mut unit = text.clone();
            unit.append("\r\n");
            let count: usize = if end > start {
                end - start
            } else {
                0
            };
            let mut new_text = String::new();
            repeat_append(&mut new_text, unit.as_str(), count);
            current = replace_str(current.as_str(), replace_buf.as_str(), new_text.as_str());
        } else if enable && !contains_str(line, "<#>control.for") {
            text.append(line);
            replace_buf.append(line);
            replace_buf.append("\r\n");
        }
        proof {
            assert(for_fold(sub, lines_spec, j + 1) == for_step(st, lines_spec[j as int]));
        }
        j += 1;
    }
    current
}

/// Renders a template, drawing each binding's value once. What each
/// binding returns is the embedder's; the rendering of those values is
/// `spec_render`.
pub fn page_template_parser<V: TemplateVar>(html: String, var: &Vec<(String, V)>) -> (r: String)
    ensures
        exists|vals: Seq<(Seq<char>, Seq<char>)>|
            vals.len() == var@.len() && (forall|i: int|
                0 <= i < vals.len() ==> (#[trigger] vals[i]).0 == var@[i].0@) && r@ == spec_render(
                html@,
                vals,
            ),
{
    let n = var.len();
    let mut values: Vec<(String, String)> = Vec::new();
    let mut i: usize = 0;
    while i < n
        invariant
            n == var@.len(),
            values@.len() == i,
            0 <= i <= n,
            forall|k: int| 0 <= k < i ==> (#[trigger] values@[k]).0@ == var@[k].0@,
        decreases n - i,
    {
        let name = var[i].0.clone();
        let value = var[i].1.value();
        values.push((name, value));
        i += 1;
    }
    let r = render_template(html.as_str(), &values);
    proof {
        let vals = values.deep_view();
        assert(vals.len() == var@.len());
        assert(forall|k: int| 0 <= k < vals.len() ==> (#[trigger] vals[k]).0 == var@[k].0@);
        assert(r@ == spec_render(html@, vals));
    }
    r
}

/// Rendering draws on nothing but the template and the values: two
/// renders of the same inputs agree exactly.
pub proof fn lemma_render_deterministic(
    html: Seq<char>,
    values: Seq<(Seq<char>, Seq<char>)>,
    r1: Seq<char>,
    r2: Seq<char>,
)
    requires
        r1 == spec_render(html, values),
        r2 == spec_render(html, values),
    ensures
        r1 == r2,
{
}

} // verus!
