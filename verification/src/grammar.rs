//! The shapes of diagnostic lines the engine emits, written as spec
//! functions over character sequences, and executable classifiers proved to
//! recognize exactly those shapes.
//!
//! Four shapes are recognized, tried in the order info, badbox, warning,
//! error; the shapes are mutually exclusive by construction, so the order
//! only fixes which classifier speaks first.
use vstd::prelude::*;

use crate::messages::{empty_details, Details, DetailsM, MessageKind};
use crate::scan::digits_end;
use crate::scan::find_at;
use crate::scan::find_char;
use crate::scan::find_sub;
use crate::scan::first_occur;
use crate::scan::has_prefix;
use crate::scan::is_digit;
use crate::scan::occurs;
use crate::scan::prefix_at;
use crate::scan::range_is;
use crate::scan::scan_digits_end;
use crate::scan::scan_ws_end;
use crate::scan::trim_from;
use crate::scan::copy_range;
use crate::scan::lemma_digits_end;

verus! {

/// The pieces of a typed diagnostic line
/// `<TypeTag>[ <Component>] <Keyword>[ (<extra>)]: <message>`.
pub ghost struct TypedParts {
    pub tag: Seq<char>,
    pub component: Option<Seq<char>>,
    pub extra: Option<Seq<char>>,
    pub message: Seq<char>,
}

/// The tags a typed diagnostic may open with: an engine-family tag, or the
/// package / class forms.
pub open spec fn is_type_tag(t: Seq<char>) -> bool {
    ||| t == "LaTeX"@
    ||| t == "pdfTeX"@
    ||| t == "LuaTeX"@
    ||| t == "Package"@
    ||| t == "Class"@
}

/// The keyword stands at `j` and is followed by the start of a valid tail:
/// either the colon directly, or a space and an opening parenthesis.
pub open spec fn kw_at(s: Seq<char>, j: int, kw: Seq<char>) -> bool {
    prefix_at(s, j, kw) && {
        let e = j + kw.len();
        (e < s.len() && s[e] == ':') || (e + 1 < s.len() && s[e] == ' ' && s[e + 1] == '(')
    }
}

/// Parses what follows the keyword, from index `j`: an optional
/// parenthesized extra token, the colon, and the message with leading
/// whitespace trimmed.  Returns `(extra, message)`.
pub open spec fn tail_parse(s: Seq<char>, j: int) -> Option<(Option<Seq<char>>, Seq<char>)> {
    if j < s.len() && s[j] == ':' {
        Some((None, trim_from(s, j + 1)))
    } else if j + 1 < s.len() && s[j] == ' ' && s[j + 1] == '(' {
        let k = find_at(s, j + 2, ')');
        if k < s.len() && k + 1 < s.len() && s[k + 1] == ':' {
            Some((Some(s.subrange(j + 2, k)), trim_from(s, k + 2)))
        } else {
            None
        }
    } else {
        None
    }
}

/// Parses a typed diagnostic line with the given keyword: a type tag, an
/// optional component word, the keyword, and the keyword's tail.
pub open spec fn typed_parse(s: Seq<char>, kw: Seq<char>) -> Option<TypedParts> {
    let sp = find_at(s, 0, ' ');
    if sp >= s.len() {
        None
    } else {
        let tag = s.subrange(0, sp);
        if !is_type_tag(tag) {
            None
        } else {
            let r = sp + 1;
            if kw_at(s, r, kw) {
                match tail_parse(s, r + kw.len()) {
                    Some(t) => Some(
                        TypedParts { tag, component: None, extra: t.0, message: t.1 },
                    ),
                    None => None,
                }
            } else {
                let sp2 = find_at(s, r, ' ');
                if sp2 >= s.len() || sp2 == r {
                    None
                } else {
                    if kw_at(s, sp2 + 1, kw) {
                        match tail_parse(s, sp2 + 1 + kw.len()) {
                            Some(t) => Some(
                                TypedParts {
                                    tag,
                                    component: Some(s.subrange(r, sp2)),
                                    extra: t.0,
                                    message: t.1,
                                },
                            ),
                            None => None,
                        }
                    } else {
                        None
                    }
                }
            }
        }
    }
}

/// Tries the capitalized keyword first, then the lower-case one.
pub open spec fn typed_parse2(s: Seq<char>, kw_cap: Seq<char>, kw_low: Seq<char>) -> Option<
    TypedParts,
> {
    match typed_parse(s, kw_cap) {
        Some(p) => Some(p),
        None => typed_parse(s, kw_low),
    }
}

/// The detail fields a typed diagnostic yields: the tag under `type`, the
/// component under `package`, `class` or `component` according to the tag,
/// the extra token, and the message.
pub open spec fn typed_details(p: TypedParts) -> DetailsM {
    DetailsM {
        type_tag: Some(p.tag),
        component: if p.component is Some && p.tag != "Package"@ && p.tag != "Class"@ {
            p.component
        } else {
            None
        },
        package: if p.component is Some && p.tag == "Package"@ {
            p.component
        } else {
            None
        },
        class: if p.component is Some && p.tag == "Class"@ {
            p.component
        } else {
            None
        },
        extra: p.extra,
        message: Some(p.message),
        ..empty_details()
    }
}

/// The pieces of a badbox line.
pub ghost struct BadboxParts {
    pub direction: Seq<char>,
    pub by: Seq<char>,
    pub line: Option<Seq<char>>,
    pub start_line: Option<Seq<char>>,
    pub end_line: Option<Seq<char>>,
}

/// The parenthesized amount: for an overfull box a size-with-unit string
/// opening with a digit, taken whole; for an underfull box `badness` and an
/// integer, of which the integer is taken.
pub open spec fn badbox_by(content: Seq<char>, over: bool) -> Option<Seq<char>> {
    if over {
        if content.len() > 0 && is_digit(content[0]) {
            Some(content)
        } else {
            None
        }
    } else {
        if prefix_at(content, 0, "badness "@) && content.len() > 8 && digits_end(content, 8)
            == content.len() {
            Some(content.subrange(8, content.len() as int))
        } else {
            None
        }
    }
}

/// The location that closes a badbox line, read from index `from`: a
/// `lines <a>--<b>` range, a single `line <n>`, or no location at all (the
/// "while output is active" form).  Returns `(line, start_line, end_line)`.
pub open spec fn badbox_location(s: Seq<char>, from: int) -> Option<
    (Option<Seq<char>>, Option<Seq<char>>, Option<Seq<char>>),
> {
    if occurs(s, from, " at lines "@) {
        let a = first_occur(s, from, " at lines "@) + 10;
        let e1 = digits_end(s, a);
        if e1 > a && prefix_at(s, e1, "--"@) {
            let b = e1 + 2;
            let e2 = digits_end(s, b);
            if e2 > b {
                Some((None, Some(s.subrange(a, e1)), Some(s.subrange(b, e2))))
            } else {
                None
            }
        } else {
            None
        }
    } else if occurs(s, from, " at line "@) {
        let a = first_occur(s, from, " at line "@) + 9;
        let e = digits_end(s, a);
        if e > a {
            Some((Some(s.subrange(a, e)), None, None))
        } else {
            None
        }
    } else {
        Some((None, None, None))
    }
}

/// Parses the rest of a badbox line once the direction is known: the `h` or
/// `v` box word, the parenthesized amount, and the location.
pub open spec fn badbox_tail(s: Seq<char>, over: bool, d: int) -> Option<BadboxParts> {
    if d < s.len() && (s[d] == 'h' || s[d] == 'v') && prefix_at(s, d + 1, "box ("@) {
        let c0 = d + 6;
        let k = find_at(s, c0, ')');
        if k >= s.len() {
            None
        } else {
            match badbox_by(s.subrange(c0, k), over) {
                None => None,
                Some(b) => match badbox_location(s, k + 1) {
                    None => None,
                    Some(loc) => Some(
                        BadboxParts {
                            direction: if s[d] == 'h' {
                                "h"@
                            } else {
                                "v"@
                            },
                            by: b,
                            line: loc.0,
                            start_line: loc.1,
                            end_line: loc.2,
                        },
                    ),
                },
            }
        }
    } else {
        None
    }
}

/// Parses a badbox line `<Over|Under>full \<h|v>box (<amount>) <location>`.
pub open spec fn badbox_parse(s: Seq<char>) -> Option<BadboxParts> {
    if prefix_at(s, 0, "Overfull \\"@) {
        badbox_tail(s, true, 10)
    } else if prefix_at(s, 0, "Underfull \\"@) {
        badbox_tail(s, false, 11)
    } else {
        None
    }
}

/// The detail fields a badbox yields.  A badbox never records a component
/// name or a message, so it is never eligible for continuation.
pub open spec fn badbox_details(p: BadboxParts) -> DetailsM {
    DetailsM {
        direction: Some(p.direction),
        by: Some(p.by),
        line: p.line,
        start_line: p.start_line,
        end_line: p.end_line,
        ..empty_details()
    }
}

/// Parses an error line: `"! "` followed by either a typed diagnostic or,
/// failing that, a bare message.
pub open spec fn error_details(s: Seq<char>) -> Option<DetailsM> {
    if !prefix_at(s, 0, "! "@) {
        None
    } else {
        let t = s.subrange(2, s.len() as int);
        match typed_parse2(t, "Error"@, "error"@) {
            Some(p) => Some(typed_details(p)),
            None => Some(DetailsM { message: Some(t), ..empty_details() }),
        }
    }
}

/// Classifies one line, trying info, badbox, warning and error in that
/// order; a line matching none of the shapes yields nothing.
pub open spec fn classify(s: Seq<char>) -> Option<(MessageKind, DetailsM)> {
    match typed_parse2(s, "Info"@, "info"@) {
        Some(p) => Some((MessageKind::Info, typed_details(p))),
        None => match badbox_parse(s) {
            Some(b) => Some((MessageKind::Badbox, badbox_details(b))),
            None => match typed_parse2(s, "Warning"@, "warning"@) {
                Some(p) => Some((MessageKind::Warning, typed_details(p))),
                None => match error_details(s) {
                    Some(d) => Some((MessageKind::Error, d)),
                    None => None,
                },
            },
        },
    }
}

/// A newly classified message that signals an unresolved forward reference:
/// a warning whose message mentions an undefined reference or citation.
pub open spec fn indicates_missing_ref(k: MessageKind, d: DetailsM) -> bool {
    k == MessageKind::Warning && d.message is Some && occurs(d.message->0, 0, "undefined"@)
}

/// Exec check that the keyword stands at `j` with a valid tail start.
fn kw_at_exec(line: &str, j: usize, kw: &str) -> (r: bool)
    ensures
        r == kw_at(line@, j as int, kw@),
{
    let n = line.unicode_len();
    if !has_prefix(line, j, kw) {
        return false;
    }
    let e = j + kw.unicode_len();
    if e < n && line.get_char(e) == ':' {
        true
    } else if e < n && n - e >= 2 && line.get_char(e) == ' ' && line.get_char(e + 1) == '(' {
        true
    } else {
        false
    }
}

/// Exec parse of the keyword tail; returns `(extra, message)`.
fn tail_exec(line: &str, j: usize) -> (r: Option<(Option<String>, String)>)
    requires
        j <= line@.len(),
    ensures
        r is Some <==> tail_parse(line@, j as int) is Some,
        r is Some ==> {
            let t = tail_parse(line@, j as int)->0;
            &&& crate::messages::opt_view((r->0).0) == t.0
            &&& (r->0).1@ == t.1
        },
{
    let n = line.unicode_len();
    if j < n && line.get_char(j) == ':' {
        let ms = scan_ws_end(line, j + 1);
        return Some((None, copy_range(line, ms, n)));
    }
    if j < n && n - j >= 2 && line.get_char(j) == ' ' && line.get_char(j + 1) == '(' {
        let k = find_char(line, j + 2, ')');
        if k < n && n - k >= 2 && line.get_char(k + 1) == ':' {
            let x = copy_range(line, j + 2, k);
            let ms = scan_ws_end(line, k + 2);
            return Some((Some(x), copy_range(line, ms, n)));
        }
        return None;
    }
    None
}

/// Exec parse of a typed diagnostic with one keyword spelling, yielding its
/// detail fields.
fn typed_exec(line: &str, kw: &str) -> (r: Option<Details>)
    ensures
        r is Some <==> typed_parse(line@, kw@) is Some,
        r is Some ==> r->0@ == typed_details(typed_parse(line@, kw@)->0),
{
    let n = line.unicode_len();
    let sp = find_char(line, 0, ' ');
    if sp >= n {
        return None;
    }
    let is_pkg = range_is(line, 0, sp, "Package");
    let is_cls = range_is(line, 0, sp, "Class");
    let tag_ok = range_is(line, 0, sp, "LaTeX") || range_is(line, 0, sp, "pdfTeX") || range_is(
        line,
        0,
        sp,
        "LuaTeX",
    ) || is_pkg || is_cls;
    if !tag_ok {
        return None;
    }
    let r0 = sp + 1;
    if kw_at_exec(line, r0, kw) {
        let j = r0 + kw.unicode_len();
        match tail_exec(line, j) {
            Some((extra, message)) => {
                let tag = copy_range(line, 0, sp);
                return Some(build_typed_details(tag, None, extra, message, is_pkg, is_cls));
            },
            None => {
                return None;
            },
        }
    }
    let sp2 = find_char(line, r0, ' ');
    if sp2 >= n || sp2 == r0 {
        return None;
    }
    if kw_at_exec(line, sp2 + 1, kw) {
        let j = sp2 + 1 + kw.unicode_len();
        match tail_exec(line, j) {
            Some((extra, message)) => {
                let tag = copy_range(line, 0, sp);
                let comp = copy_range(line, r0, sp2);
                return Some(build_typed_details(tag, Some(comp), extra, message, is_pkg, is_cls));
            },
            None => {
                return None;
            },
        }
    }
    None
}


/// Assembles the detail fields of a typed diagnostic, routing the component
/// under the key its tag calls for.
fn build_typed_details(
    tag: String,
    component: Option<String>,
    extra: Option<String>,
    message: String,
    is_pkg: bool,
    is_cls: bool,
) -> (r: Details)
    requires
        is_pkg == (tag@ == "Package"@),
        is_cls == (tag@ == "Class"@),
    ensures
        r@ == typed_details(
            TypedParts {
                tag: tag@,
                component: crate::messages::opt_view(component),
                extra: crate::messages::opt_view(extra),
                message: message@,
            },
        ),
{
    let (comp_f, pkg_f, cls_f): (Option<String>, Option<String>, Option<String>) = match component {
        Some(c) => {
            if is_pkg {
                (None, Some(c), None)
            } else if is_cls {
                (None, None, Some(c))
            } else {
                (Some(c), None, None)
            }
        },
        None => (None, None, None),
    };
    let d = Details {
        type_tag: Some(tag),
        component: comp_f,
        package: pkg_f,
        class: cls_f,
        extra,
        message: Some(message),
        direction: None,
        by: None,
        line: None,
        start_line: None,
        end_line: None,
    };
    proof {
        reveal_strlit("Package");
        reveal_strlit("Class");
        assert("Package"@.len() == 7);
        assert("Class"@.len() == 5);
        assert("Package"@ != "Class"@);
        let p = TypedParts {
            tag: tag@,
            component: crate::messages::opt_view(component),
            extra: crate::messages::opt_view(extra),
            message: message@,
        };
        let td = typed_details(p);
        assert(d@.type_tag == td.type_tag);
        assert(d@.component == td.component);
        assert(d@.package == td.package);
        assert(d@.class == td.class);
        assert(d@.extra == td.extra);
        assert(d@.message == td.message);
    }
    d
}

/// Exec parse of a typed diagnostic, trying both keyword spellings.
pub fn parse_typed(line: &str, kw_cap: &str, kw_low: &str) -> (r: Option<Details>)
    ensures
        r is Some <==> typed_parse2(line@, kw_cap@, kw_low@) is Some,
        r is Some ==> r->0@ == typed_details(typed_parse2(line@, kw_cap@, kw_low@)->0),
{
    match typed_exec(line, kw_cap) {
        Some(d) => Some(d),
        None => typed_exec(line, kw_low),
    }
}

/// Exec parse of the badbox location forms.
fn location_exec(line: &str, from: usize) -> (r: Option<
    (Option<String>, Option<String>, Option<String>),
>)
    requires
        from <= line@.len(),
    ensures
        r is Some <==> badbox_location(line@, from as int) is Some,
        r is Some ==> {
            let loc = badbox_location(line@, from as int)->0;
            &&& crate::messages::opt_view((r->0).0) == loc.0
            &&& crate::messages::opt_view((r->0).1) == loc.1
            &&& crate::messages::opt_view((r->0).2) == loc.2
        },
{
    let total = line.unicode_len();
    proof {
        assert(total == line@.len());
        reveal_strlit(" at lines ");
        reveal_strlit(" at line ");
        reveal_strlit("--");
    }
    match find_sub(line, from, " at lines ") {
        Some(a0) => {
            let a = a0 + 10;
            let e1 = scan_digits_end(line, a);
            if e1 > a && has_prefix(line, e1, "--") {
                let b = e1 + 2;
                let e2 = scan_digits_end(line, b);
                if e2 > b {
                    Some((None, Some(copy_range(line, a, e1)), Some(copy_range(line, b, e2))))
                } else {
                    None
                }
            } else {
                None
            }
        },
        None => match find_sub(line, from, " at line ") {
            Some(a0) => {
                let a = a0 + 9;
                let e = scan_digits_end(line, a);
                if e > a {
                    Some((Some(copy_range(line, a, e)), None, None))
                } else {
                    None
                }
            },
            None => Some((None, None, None)),
        },
    }
}

/// Exec parse of the rest of a badbox line once the direction is known.
fn badbox_tail_exec(line: &str, over: bool, d: usize) -> (r: Option<Details>)
    requires
        d <= line@.len(),
    ensures
        r is Some <==> badbox_tail(line@, over, d as int) is Some,
        r is Some ==> r->0@ == badbox_details(badbox_tail(line@, over, d as int)->0),
{
    let n = line.unicode_len();
    proof {
        reveal_strlit("box (");
        reveal_strlit("badness ");
    }
    if !(d < n) {
        return None;
    }
    let dir = line.get_char(d);
    if !(dir == 'h' || dir == 'v') {
        return None;
    }
    if !has_prefix(line, d + 1, "box (") {
        return None;
    }
    let c0 = d + 6;
    let k = find_char(line, c0, ')');
    if k >= n {
        return None;
    }
    let ghost content = line@.subrange(c0 as int, k as int);
    let by: Option<String> = if over {
        if k > c0 {
            let ch0 = line.get_char(c0);
            if '0' <= ch0 && ch0 <= '9' {
                proof {
                    assert(content[0] == line@[c0 as int]);
                }
                Some(copy_range(line, c0, k))
            } else {
                proof {
                    assert(content[0] == line@[c0 as int]);
                }
                None
            }
        } else {
            None
        }
    } else {
        if k - c0 > 8 && has_prefix(line, c0, "badness ") {
            let e = scan_digits_end(line, c0 + 8);
            proof {
                crate::scan::lemma_find_at(line@, c0 as int, ')');
                assert(line@[k as int] == ')');
                assert(content.len() == k - c0);
                assert(forall|x: int| 0 <= x < content.len() ==> content[x] == line@[c0 + x]);
                assert(content.subrange(0, 8) =~= line@.subrange(c0 as int, c0 + 8));
                assert(prefix_at(content, 0, "badness "@));
                lemma_digits_end(line@, c0 + 8);
                if e == k {
                    assert forall|x: int| 8 <= x < content.len() implies is_digit(content[x]) by {
                        assert(content[x] == line@[c0 + x]);
                        assert(is_digit(line@[c0 + x]));
                    }
                    crate::scan::lemma_digits_end_is(content, 8, content.len() as int);
                    assert(badbox_by(content, over) is Some);
                    assert(badbox_by(content, over)->0 =~= line@.subrange(c0 + 8, k as int));
                } else {
                    if e > k {
                        assert(is_digit(line@[k as int]));
                        assert(false);
                    }
                    assert(e < k);
                    assert(!is_digit(line@[e as int]));
                    assert(content[e - c0] == line@[e as int]);
                    if digits_end(content, 8) == content.len() {
                        lemma_digits_end(content, 8);
                        assert(is_digit(content[e - c0]));
                        assert(false);
                    }
                    assert(badbox_by(content, over) is None);
                }
            }
            if e == k {
                Some(copy_range(line, c0 + 8, k))
            } else {
                None
            }
        } else {
            proof {
                crate::scan::lemma_find_at(line@, c0 as int, ')');
                assert(content.len() == k - c0);
                if prefix_at(content, 0, "badness "@) && content.len() > 8 {
                    assert(line@.subrange(c0 as int, c0 + 8) =~= content.subrange(0, 8));
                    assert(prefix_at(line@, c0 as int, "badness "@));
                    assert(false);
                }
                assert(badbox_by(content, over) is None);
            }
            None
        }
    };
    let by = match by {
        Some(b) => b,
        None => {
            return None;
        },
    };
    match location_exec(line, k + 1) {
        Some((l, sl, el)) => {
            let direction = if dir == 'h' {
                "h".to_owned()
            } else {
                "v".to_owned()
            };
            Some(
                Details {
                    type_tag: None,
                    component: None,
                    package: None,
                    class: None,
                    extra: None,
                    message: None,
                    direction: Some(direction),
                    by: Some(by),
                    line: l,
                    start_line: sl,
                    end_line: el,
                },
            )
        },
        None => None,
    }
}

/// Exec parse of a badbox line.
pub fn parse_badbox(line: &str) -> (r: Option<Details>)
    ensures
        r is Some <==> badbox_parse(line@) is Some,
        r is Some ==> r->0@ == badbox_details(badbox_parse(line@)->0),
{
    proof {
        reveal_strlit("Overfull \\");
        reveal_strlit("Underfull \\");
    }
    if has_prefix(line, 0, "Overfull \\") {
        badbox_tail_exec(line, true, 10)
    } else if has_prefix(line, 0, "Underfull \\") {
        badbox_tail_exec(line, false, 11)
    } else {
        None
    }
}

/// Exec parse of an error line.
pub fn parse_error(line: &str) -> (r: Option<Details>)
    ensures
        r is Some <==> error_details(line@) is Some,
        r is Some ==> r->0@ == error_details(line@)->0,
{
    proof {
        reveal_strlit("! ");
    }
    if !has_prefix(line, 0, "! ") {
        return None;
    }
    let n = line.unicode_len();
    let t = line.substring_char(2, n);
    match parse_typed(t, "Error", "error") {
        Some(d) => Some(d),
        None => {
            let mut d = Details {
                type_tag: None,
                component: None,
                package: None,
                class: None,
                extra: None,
                message: None,
                direction: None,
                by: None,
                line: None,
                start_line: None,
                end_line: None,
            };
            d.message = Some(t.to_owned());
            Some(d)
        },
    }
}

/// Exec classifier: recognizes one line, yielding the message kind and its
/// detail fields.
pub fn classify_line(line: &str) -> (r: Option<(MessageKind, Details)>)
    ensures
        r is Some <==> classify(line@) is Some,
        r is Some ==> (r->0).0 == (classify(line@)->0).0 && (r->0).1@ == (classify(line@)->0).1,
{
    match parse_typed(line, "Info", "info") {
        Some(d) => Some((MessageKind::Info, d)),
        None => match parse_badbox(line) {
            Some(d) => Some((MessageKind::Badbox, d)),
            None => match parse_typed(line, "Warning", "warning") {
                Some(d) => Some((MessageKind::Warning, d)),
                None => match parse_error(line) {
                    Some(d) => Some((MessageKind::Error, d)),
                    None => None,
                },
            },
        },
    }
}

/// Exec check of the unresolved-reference signal on a freshly classified
/// message.
pub fn is_missing_ref(kind: MessageKind, details: &Details) -> (r: bool)
    ensures
        r == indicates_missing_ref(kind, details@),
{
    match kind {
        MessageKind::Warning => match &details.message {
            Some(m) => find_sub(m.as_str(), 0, "undefined").is_some(),
            None => false,
        },
        _ => false,
    }
}

} // verus!
