use crate::notice::{
    frames_view, map_view, opt_view, pairs_view, request_fields_absent, serialize_severity,
    severity_token,
    trace_view, BacktraceInfo, Context, ErrorInfo, FrameView, Notice, NotifierInfo, StringMap,
    UserInfo,
};
use vstd::prelude::*;

verus! {

/// A lowercase hexadecimal digit.
pub open spec fn hex_digit(d: nat) -> char {
    if d < 10 {
        (('0' as nat) + d) as char
    } else {
        (('a' as nat) + d - 10) as char
    }
}

/// How a character stands inside a JSON string: quote and backslash escaped,
/// the control characters below U+0020 by their short escape or as `\u00XX`,
/// every other character as it is.
pub open spec fn escape_char(c: char) -> Seq<char> {
    if c == '"' {
        seq!['\\', '"']
    } else if c == '\\' {
        seq!['\\', '\\']
    } else if c == '\u{8}' {
        seq!['\\', 'b']
    } else if c == '\t' {
        seq!['\\', 't']
    } else if c == '\n' {
        seq!['\\', 'n']
    } else if c == '\u{c}' {
        seq!['\\', 'f']
    } else if c == '\r' {
        seq!['\\', 'r']
    } else if (c as u32) < 0x20 {
        seq!['\\', 'u', '0', '0', hex_digit((c as nat) / 16), hex_digit((c as nat) % 16)]
    } else {
        seq![c]
    }
}

/// The characters of `s`, each escaped.
pub open spec fn escaped(s: Seq<char>) -> Seq<char>
    decreases s.len(),
{
    if s.len() == 0 {
        Seq::empty()
    } else {
        escaped(s.drop_last()) + escape_char(s.last())
    }
}

/// The JSON string literal that writes `s`, quotes and escapes included.
pub open spec fn json_quoted(s: Seq<char>) -> Seq<char> {
    seq!['"'] + escaped(s) + seq!['"']
}

/// Whether `c` stands as it is inside a JSON string.
pub open spec fn is_plain_char(c: char) -> bool {
    c != '"' && c != '\\' && (c as u32) >= 0x20
}

/// A text of plain characters is written between quotes as it is.
pub proof fn lemma_plain_text_quoted(s: Seq<char>)
    requires
        forall|i: int| 0 <= i < s.len() ==> is_plain_char(#[trigger] s[i]),
    ensures
        json_quoted(s) == seq!['"'] + s + seq!['"'],
{
    lemma_plain_text_escaped(s);
}

proof fn lemma_plain_text_escaped(s: Seq<char>)
    requires
        forall|i: int| 0 <= i < s.len() ==> is_plain_char(#[trigger] s[i]),
    ensures
        escaped(s) == s,
    decreases s.len(),
{
    if s.len() == 0 {
        assert(s =~= Seq::<char>::empty());
    } else {
        assert forall|i: int| 0 <= i < s.drop_last().len() implies is_plain_char(
            #[trigger] s.drop_last()[i],
        ) by {
            assert(s.drop_last()[i] == s[i]);
        }
        lemma_plain_text_escaped(s.drop_last());
        assert(is_plain_char(s[s.len() - 1]));
        assert(escape_char(s.last()) == seq![s.last()]);
        assert(s.drop_last() + seq![s.last()] =~= s);
    }
}

/// Relies on serde_json::to_string: a `str` becomes its JSON string literal,
/// escaped as `format_escaped_str` with the compact formatter does. Writing into
/// memory cannot fail for a `str`.
#[verifier::external_body]
fn json_string(s: &str) -> (r: String)
    ensures
        r@ == json_quoted(s@),
{
    serde_json::to_string(s).unwrap_or_default()
}

/// The items `xs` with a comma between each two.
pub open spec fn commas(xs: Seq<Seq<char>>) -> Seq<char>
    decreases xs.len(),
{
    if xs.len() == 0 {
        Seq::empty()
    } else if xs.len() == 1 {
        xs[0]
    } else {
        commas(xs.drop_last()) + ","@ + xs.last()
    }
}

/// The members of `ms` that are present, in order.
pub open spec fn present(ms: Seq<Option<Seq<char>>>) -> Seq<Seq<char>>
    decreases ms.len(),
{
    if ms.len() == 0 {
        Seq::empty()
    } else {
        let p = present(ms.drop_last());
        match ms.last() {
            Some(m) => p.push(m),
            None => p,
        }
    }
}

/// A JSON object of the present members of `ms`.
pub open spec fn object(ms: Seq<Option<Seq<char>>>) -> Seq<char> {
    "{"@ + commas(present(ms)) + "}"@
}

/// A JSON array of `xs`.
pub open spec fn array(xs: Seq<Seq<char>>) -> Seq<char> {
    "["@ + commas(xs) + "]"@
}

/// The member `"key":value`, absent where the value is.
pub open spec fn member(key: Seq<char>, value: Option<Seq<char>>) -> Option<Seq<char>> {
    match value {
        Some(v) => Some(json_quoted(key) + ":"@ + v),
        None => None,
    }
}

pub open spec fn quoted_opt(o: Option<Seq<char>>) -> Option<Seq<char>> {
    match o {
        Some(s) => Some(json_quoted(s)),
        None => None,
    }
}

pub open spec fn digit_char(d: nat) -> char {
    (('0' as nat) + d) as char
}

/// The decimal digits of `n`.
pub open spec fn decimal_spec(n: nat) -> Seq<char>
    decreases n,
{
    if n < 10 {
        seq![digit_char(n)]
    } else {
        decimal_spec(n / 10).push(digit_char(n % 10))
    }
}

pub open spec fn number_opt(o: Option<usize>) -> Option<Seq<char>> {
    match o {
        Some(n) => Some(decimal_spec(n as nat)),
        None => None,
    }
}

/// A flat mapping as a JSON object, in the mapping's order.
pub open spec fn map_json(m: Seq<(Seq<char>, Seq<char>)>) -> Seq<char> {
    object(pair_members(m))
}

/// Each entry of a mapping as the member `"key":"value"`.
pub open spec fn pair_members(m: Seq<(Seq<char>, Seq<char>)>) -> Seq<Option<Seq<char>>>
    decreases m.len(),
{
    if m.len() == 0 {
        Seq::empty()
    } else {
        pair_members(m.drop_last()).push(
            Some(json_quoted(m.last().0) + ":"@ + json_quoted(m.last().1)),
        )
    }
}

pub open spec fn map_opt(o: Option<Seq<(Seq<char>, Seq<char>)>>) -> Option<Seq<char>> {
    match o {
        Some(m) => Some(map_json(m)),
        None => None,
    }
}

pub open spec fn frame_json(f: FrameView) -> Seq<char> {
    object(
        seq![
            member("file"@, quoted_opt(f.file)),
            member("function"@, quoted_opt(f.function)),
            member("line"@, number_opt(f.line)),
            member("column"@, number_opt(f.column)),
            member("code"@, map_opt(f.code)),
        ],
    )
}

pub open spec fn frames_json(fs: Seq<FrameView>) -> Seq<Seq<char>>
    decreases fs.len(),
{
    if fs.len() == 0 {
        Seq::empty()
    } else {
        frames_json(fs.drop_last()).push(frame_json(fs.last()))
    }
}

pub open spec fn errors_json(es: Seq<ErrorInfo>) -> Seq<Seq<char>>
    decreases es.len(),
{
    if es.len() == 0 {
        Seq::empty()
    } else {
        errors_json(es.drop_last()).push(error_json(es.last()))
    }
}

pub open spec fn trace_json(o: Option<Seq<FrameView>>) -> Option<Seq<char>> {
    match o {
        Some(fs) => Some(array(frames_json(fs))),
        None => None,
    }
}

pub open spec fn error_json(e: ErrorInfo) -> Seq<char> {
    object(
        seq![
            member("type"@, Some(json_quoted(e.type_@))),
            member("message"@, Some(json_quoted(e.message@))),
            member("backtrace"@, trace_json(trace_view(e.backtrace))),
        ],
    )
}

pub open spec fn notifier_json(n: NotifierInfo) -> Seq<char> {
    object(
        seq![
            member("name"@, quoted_opt(opt_view(n.name))),
            member("version"@, quoted_opt(opt_view(n.version))),
            member("url"@, quoted_opt(opt_view(n.url))),
        ],
    )
}

pub open spec fn user_json(u: UserInfo) -> Seq<char> {
    object(
        seq![
            member("id"@, quoted_opt(opt_view(u.id))),
            member("name"@, quoted_opt(opt_view(u.name))),
            member("email"@, quoted_opt(opt_view(u.email))),
        ],
    )
}

pub open spec fn context_members(c: Context) -> Seq<Option<Seq<char>>> {
    seq![
        member(
            "notifier"@,
            match c.notifier {
                Some(n) => Some(notifier_json(n)),
                None => None,
            },
        ),
        member("environment"@, quoted_opt(opt_view(c.environment))),
        member(
            "severity"@,
            match c.severity {
                Some(s) => Some(json_quoted(severity_token(Some(s)))),
                None => None,
            },
        ),
        member("component"@, quoted_opt(opt_view(c.component))),
        member("action"@, quoted_opt(opt_view(c.action))),
        member("os"@, quoted_opt(opt_view(c.os))),
        member("hostname"@, quoted_opt(opt_view(c.hostname))),
        member("language"@, quoted_opt(opt_view(c.language))),
        member("version"@, quoted_opt(opt_view(c.version))),
        member("url"@, quoted_opt(opt_view(c.url))),
        member("userAgent"@, quoted_opt(opt_view(c.user_agent))),
        member("userAddr"@, quoted_opt(opt_view(c.user_addr))),
        member("remoteAddr"@, quoted_opt(opt_view(c.remote_addr))),
        member("rootDirectory"@, quoted_opt(opt_view(c.root_directory))),
        member(
            "user"@,
            match c.user {
                Some(u) => Some(user_json(u)),
                None => None,
            },
        ),
        member("route"@, quoted_opt(opt_view(c.route))),
        member("httpMethod"@, quoted_opt(opt_view(c.http_method))),
    ]
}

pub open spec fn context_json(c: Context) -> Seq<char> {
    object(context_members(c))
}

/// The JSON document of a notice: absent fields are left out, never written as null.
pub open spec fn notice_json(n: Notice) -> Seq<char> {
    object(
        seq![
            member("errors"@, Some(array(errors_json(n.errors@)))),
            member("context"@, Some(context_json(n.context))),
            member("environment"@, map_opt(map_view(n.environment))),
            member("session"@, map_opt(map_view(n.session))),
            member("params"@, map_opt(map_view(n.params))),
        ],
    )
}

/// A notice whose mappings are all absent is written with its errors and its
/// context alone.
pub proof fn lemma_absent_fields_left_out(n: Notice)
    requires
        n.environment is None,
        n.session is None,
        n.params is None,
    ensures
        notice_json(n) == "{"@ + json_quoted("errors"@) + ":"@ + array(errors_json(n.errors@))
            + ","@ + json_quoted("context"@) + ":"@ + context_json(n.context) + "}"@,
{
    let ms = seq![
        member("errors"@, Some(array(errors_json(n.errors@)))),
        member("context"@, Some(context_json(n.context))),
        member("environment"@, map_opt(map_view(n.environment))),
        member("session"@, map_opt(map_view(n.session))),
        member("params"@, map_opt(map_view(n.params))),
    ];
    let e = json_quoted("errors"@) + ":"@ + array(errors_json(n.errors@));
    let c = json_quoted("context"@) + ":"@ + context_json(n.context);
    lemma_present_prefix(ms, 2);
    assert(ms.take(2) =~= seq![Some(e), Some(c)]);
    let two = seq![Some(e), Some(c)];
    let one = seq![Some(e)];
    assert(two.drop_last() =~= one);
    assert(one.drop_last() =~= Seq::<Option<Seq<char>>>::empty());
    assert(present(Seq::<Option<Seq<char>>>::empty()) == Seq::<Seq<char>>::empty());
    assert(present(one) == present(one.drop_last()).push(e));
    assert(present(one) =~= seq![e]);
    assert(present(two) == present(two.drop_last()).push(c));
    assert(present(two) =~= seq![e, c]);
    assert(seq![e, c].drop_last() =~= seq![e]);
    assert(commas(seq![e]) == e);
    assert(commas(seq![e, c]) == commas(seq![e, c].drop_last()) + ","@ + c);
    assert(notice_json(n) =~= "{"@ + e + ","@ + c + "}"@);
}

/// An error with no call stack is written with its kind and message alone: no
/// `backtrace` member.
pub proof fn lemma_error_without_trace(e: ErrorInfo)
    requires
        e.backtrace is None,
    ensures
        error_json(e) == "{"@ + json_quoted("type"@) + ":"@ + json_quoted(e.type_@) + ","@
            + json_quoted("message"@) + ":"@ + json_quoted(e.message@) + "}"@,
{
    let ms = seq![
        member("type"@, Some(json_quoted(e.type_@))),
        member("message"@, Some(json_quoted(e.message@))),
        member("backtrace"@, trace_json(trace_view(e.backtrace))),
    ];
    let t = json_quoted("type"@) + ":"@ + json_quoted(e.type_@);
    let m = json_quoted("message"@) + ":"@ + json_quoted(e.message@);
    lemma_present_prefix(ms, 2);
    let two = seq![Some(t), Some(m)];
    let one = seq![Some(t)];
    assert(ms.take(2) =~= two);
    assert(two.drop_last() =~= one);
    assert(one.drop_last() =~= Seq::<Option<Seq<char>>>::empty());
    assert(present(Seq::<Option<Seq<char>>>::empty()) == Seq::<Seq<char>>::empty());
    assert(present(one) == present(one.drop_last()).push(t));
    assert(present(one) =~= seq![t]);
    assert(present(two) == present(two.drop_last()).push(m));
    assert(present(two) =~= seq![t, m]);
    assert(seq![t, m].drop_last() =~= seq![t]);
    assert(commas(seq![t]) == t);
    assert(commas(seq![t, m]) == commas(seq![t, m].drop_last()) + ","@ + m);
    assert(error_json(e) =~= "{"@ + t + ","@ + m + "}"@);
}

/// Absent members add nothing: only the first `k` members of `ms` are written
/// where the others are absent.
pub proof fn lemma_present_prefix(ms: Seq<Option<Seq<char>>>, k: int)
    requires
        0 <= k <= ms.len(),
        forall|i: int| k <= i < ms.len() ==> #[trigger] ms[i] is None,
    ensures
        present(ms) == present(ms.take(k)),
    decreases ms.len(),
{
    if ms.len() > k {
        assert(ms.drop_last().take(k) =~= ms.take(k));
        lemma_present_prefix(ms.drop_last(), k);
        assert(ms.last() == ms[ms.len() - 1]);
    } else {
        assert(ms.take(k) =~= ms);
    }
}

/// A context with no field set is written as an empty object.
pub proof fn lemma_empty_context(c: Context)
    requires
        c.notifier is None,
        c.environment is None,
        c.severity is None,
        c.os is None,
        c.hostname is None,
        c.language is None,
        c.version is None,
        c.root_directory is None,
        request_fields_absent(c),
    ensures
        context_json(c) == "{}"@,
{
    let ms = context_members(c);
    lemma_present_prefix(ms, 0);
    assert(ms.take(0) =~= Seq::<Option<Seq<char>>>::empty());
    assert(present(ms) =~= Seq::<Seq<char>>::empty());
    assert(commas(Seq::<Seq<char>>::empty()) == Seq::<char>::empty());
    reveal_strlit("{}");
    reveal_strlit("{");
    reveal_strlit("}");
    assert(context_json(c) =~= "{}"@);
}

pub open spec fn opt_views(v: Seq<Option<String>>) -> Seq<Option<Seq<char>>> {
    v.map_values(|o: Option<String>| opt_view(o))
}

pub open spec fn views(v: Seq<String>) -> Seq<Seq<char>> {
    v.map_values(|s: String| s@)
}

/// Writes `items` with a comma between each two after `open`, then `close`.
fn join_text(open: &str, items: &Vec<String>, close: &str) -> (r: String)
    ensures
        r@ == open@ + commas(views(items@)) + close@,
{
    let mut r = String::from_str(open);
    let mut i: usize = 0;
    while i < items.len()
        invariant
            i <= items@.len(),
            r@ == open@ + commas(views(items@).take(i as int)),
        decreases items.len() - i,
    {
        let ghost prev = views(items@).take(i as int);
        assert(views(items@).take(i + 1).drop_last() =~= prev);
        if i > 0 {
            r.append(",");
        }
        r.append(items[i].as_str());
        i = i + 1;
        proof {
            let cur = views(items@).take(i as int);
            assert(cur.last() == items@[i - 1]@);
            if i == 1 {
                assert(prev =~= Seq::<Seq<char>>::empty());
                assert(r@ =~= open@ + commas(cur));
            } else {
                assert(r@ =~= open@ + commas(cur));
            }
        }
    }
    assert(views(items@).take(items.len() as int) =~= views(items@));
    r.append(close);
    r
}

/// A JSON object of the present members.
fn object_text(members: Vec<Option<String>>) -> (r: String)
    ensures
        r@ == object(opt_views(members@)),
{
    let mut items: Vec<String> = Vec::new();
    let mut i: usize = 0;
    while i < members.len()
        invariant
            i <= members@.len(),
            views(items@) == present(opt_views(members@).take(i as int)),
        decreases members.len() - i,
    {
        assert(opt_views(members@).take(i + 1).drop_last() =~= opt_views(members@).take(i as int));
        match &members[i] {
            Some(m) => {
                items.push(m.clone());
            },
            None => {},
        }
        i = i + 1;
        assert(views(items@) =~= present(opt_views(members@).take(i as int)));
    }
    assert(opt_views(members@).take(members.len() as int) =~= opt_views(members@));
    join_text("{", &items, "}")
}

fn array_text(items: &Vec<String>) -> (r: String)
    ensures
        r@ == array(views(items@)),
{
    join_text("[", items, "]")
}

fn member_text(key: &str, value: Option<String>) -> (r: Option<String>)
    ensures
        opt_view(r) == member(key@, opt_view(value)),
{
    match value {
        Some(v) => {
            let mut m = json_string(key);
            m.append(":");
            m.append(v.as_str());
            Some(m)
        },
        None => None,
    }
}

fn quoted_text(o: &Option<String>) -> (r: Option<String>)
    ensures
        opt_view(r) == quoted_opt(opt_view(*o)),
{
    match o {
        Some(s) => Some(json_string(s.as_str())),
        None => None,
    }
}

fn digit_text(d: usize) -> (r: &'static str)
    requires
        d < 10,
    ensures
        r@ == seq![digit_char(d as nat)],
{
    proof {
        reveal_strlit("0");
        reveal_strlit("1");
        reveal_strlit("2");
        reveal_strlit("3");
        reveal_strlit("4");
        reveal_strlit("5");
        reveal_strlit("6");
        reveal_strlit("7");
        reveal_strlit("8");
        reveal_strlit("9");
    }
    let r = if d == 0 {
        "0"
    } else if d == 1 {
        "1"
    } else if d == 2 {
        "2"
    } else if d == 3 {
        "3"
    } else if d == 4 {
        "4"
    } else if d == 5 {
        "5"
    } else if d == 6 {
        "6"
    } else if d == 7 {
        "7"
    } else if d == 8 {
        "8"
    } else {
        "9"
    };
    assert(r@ =~= seq![digit_char(d as nat)]);
    r
}

/// The decimal digits of `n`.
pub fn decimal_text(n: usize) -> (r: String)
    ensures
        r@ == decimal_spec(n as nat),
    decreases n,
{
    if n < 10 {
        String::from_str(digit_text(n))
    } else {
        let mut r = decimal_text(n / 10);
        r.append(digit_text(n % 10));
        assert(r@ =~= decimal_spec(n as nat));
        r
    }
}

fn number_text(o: Option<usize>) -> (r: Option<String>)
    ensures
        opt_view(r) == number_opt(o),
{
    match o {
        Some(n) => Some(decimal_text(n)),
        None => None,
    }
}

/// A flat mapping as a JSON object.
pub fn map_text(m: &StringMap) -> (r: String)
    ensures
        r@ == map_json(pairs_view(m@)),
{
    let mut members: Vec<Option<String>> = Vec::new();
    let mut i: usize = 0;
    while i < m.len()
        invariant
            i <= m@.len(),
            opt_views(members@) == pair_members(pairs_view(m@).take(i as int)),
        decreases m.len() - i,
    {
        let mut t = json_string(m[i].0.as_str());
        t.append(":");
        let v = json_string(m[i].1.as_str());
        t.append(v.as_str());
        let ghost p = pairs_view(m@)[i as int];
        assert(p == (m@[i as int].0@, m@[i as int].1@));
        assert(t@ == json_quoted(p.0) + ":"@ + json_quoted(p.1));
        members.push(Some(t));
        i = i + 1;
        assert(pairs_view(m@).take(i as int).drop_last() =~= pairs_view(m@).take(i - 1));
        assert(opt_views(members@) =~= pair_members(pairs_view(m@).take(i as int)));
    }
    assert(pairs_view(m@).take(m.len() as int) =~= pairs_view(m@));
    object_text(members)
}

fn map_opt_text(o: &Option<StringMap>) -> (r: Option<String>)
    ensures
        opt_view(r) == map_opt(map_view(*o)),
{
    match o {
        Some(m) => Some(map_text(m)),
        None => None,
    }
}

fn frame_text(f: &BacktraceInfo) -> (r: String)
    ensures
        r@ == frame_json(f@),
{
    let code = map_opt_text(&f.code);
    let members = vec![
        member_text("file", quoted_text(&f.file)),
        member_text("function", quoted_text(&f.function)),
        member_text("line", number_text(f.line)),
        member_text("column", number_text(f.column)),
        member_text("code", code),
    ];
    let r = object_text(members);
    assert(opt_views(members@) =~= seq![
        member("file"@, quoted_opt(f@.file)),
        member("function"@, quoted_opt(f@.function)),
        member("line"@, number_opt(f@.line)),
        member("column"@, number_opt(f@.column)),
        member("code"@, map_opt(f@.code)),
    ]);
    r
}

fn trace_text(o: &Option<Vec<BacktraceInfo>>) -> (r: Option<String>)
    ensures
        opt_view(r) == trace_json(trace_view(*o)),
{
    match o {
        Some(fs) => {
            let mut items: Vec<String> = Vec::new();
            let mut i: usize = 0;
            while i < fs.len()
                invariant
                    i <= fs@.len(),
                    views(items@) == frames_json(frames_view(fs@).take(i as int)),
                decreases fs.len() - i,
            {
                items.push(frame_text(&fs[i]));
                i = i + 1;
                assert(frames_view(fs@).take(i as int).drop_last() =~= frames_view(fs@).take(
                    i - 1,
                ));
                assert(views(items@) =~= frames_json(frames_view(fs@).take(i as int)));
            }
            assert(frames_view(fs@).take(fs.len() as int) =~= frames_view(fs@));
            Some(array_text(&items))
        },
        None => None,
    }
}

fn error_text(e: &ErrorInfo) -> (r: String)
    ensures
        r@ == error_json(*e),
{
    let members = vec![
        member_text("type", Some(json_string(e.type_.as_str()))),
        member_text("message", Some(json_string(e.message.as_str()))),
        member_text("backtrace", trace_text(&e.backtrace)),
    ];
    let r = object_text(members);
    assert(opt_views(members@) =~= seq![
        member("type"@, Some(json_quoted(e.type_@))),
        member("message"@, Some(json_quoted(e.message@))),
        member("backtrace"@, trace_json(trace_view(e.backtrace))),
    ]);
    r
}

fn notifier_text(n: &NotifierInfo) -> (r: String)
    ensures
        r@ == notifier_json(*n),
{
    let members = vec![
        member_text("name", quoted_text(&n.name)),
        member_text("version", quoted_text(&n.version)),
        member_text("url", quoted_text(&n.url)),
    ];
    let r = object_text(members);
    assert(opt_views(members@) =~= seq![
        member("name"@, quoted_opt(opt_view(n.name))),
        member("version"@, quoted_opt(opt_view(n.version))),
        member("url"@, quoted_opt(opt_view(n.url))),
    ]);
    r
}

fn user_text(u: &UserInfo) -> (r: String)
    ensures
        r@ == user_json(*u),
{
    let members = vec![
        member_text("id", quoted_text(&u.id)),
        member_text("name", quoted_text(&u.name)),
        member_text("email", quoted_text(&u.email)),
    ];
    let r = object_text(members);
    assert(opt_views(members@) =~= seq![
        member("id"@, quoted_opt(opt_view(u.id))),
        member("name"@, quoted_opt(opt_view(u.name))),
        member("email"@, quoted_opt(opt_view(u.email))),
    ]);
    r
}

/// The JSON object of a context; a severity is written as its token.
pub fn context_text(c: &Context) -> (r: String)
    ensures
        r@ == context_json(*c),
{
    let notifier = match &c.notifier {
        Some(n) => Some(notifier_text(n)),
        None => None,
    };
    let severity = match &c.severity {
        Some(_) => Some(json_string(serialize_severity(&c.severity))),
        None => None,
    };
    let user = match &c.user {
        Some(u) => Some(user_text(u)),
        None => None,
    };
    let members = vec![
        member_text("notifier", notifier),
        member_text("environment", quoted_text(&c.environment)),
        member_text("severity", severity),
        member_text("component", quoted_text(&c.component)),
        member_text("action", quoted_text(&c.action)),
        member_text("os", quoted_text(&c.os)),
        member_text("hostname", quoted_text(&c.hostname)),
        member_text("language", quoted_text(&c.language)),
        member_text("version", quoted_text(&c.version)),
        member_text("url", quoted_text(&c.url)),
        member_text("userAgent", quoted_text(&c.user_agent)),
        member_text("userAddr", quoted_text(&c.user_addr)),
        member_text("remoteAddr", quoted_text(&c.remote_addr)),
        member_text("rootDirectory", quoted_text(&c.root_directory)),
        member_text("user", user),
        member_text("route", quoted_text(&c.route)),
        member_text("httpMethod", quoted_text(&c.http_method)),
    ];
    let r = object_text(members);
    assert(opt_views(members@) =~= context_members(*c));
    r
}

impl Notice {
    /// The notice as a JSON document.
    pub fn to_json(&self) -> (r: String)
        ensures
            r@ == notice_json(*self),
    {
        let mut items: Vec<String> = Vec::new();
        let mut i: usize = 0;
        while i < self.errors.len()
            invariant
                i <= self.errors@.len(),
                views(items@) == errors_json(self.errors@.take(i as int)),
            decreases self.errors.len() - i,
        {
            items.push(error_text(&self.errors[i]));
            i = i + 1;
            assert(self.errors@.take(i as int).drop_last() =~= self.errors@.take(i - 1));
            assert(views(items@) =~= errors_json(self.errors@.take(i as int)));
        }
        assert(self.errors@.take(self.errors.len() as int) =~= self.errors@);
        let members = vec![
            member_text("errors", Some(array_text(&items))),
            member_text("context", Some(context_text(&self.context))),
            member_text("environment", map_opt_text(&self.environment)),
            member_text("session", map_opt_text(&self.session)),
            member_text("params", map_opt_text(&self.params)),
        ];
        let r = object_text(members);
        assert(opt_views(members@) =~= seq![
            member("errors"@, Some(array(errors_json(self.errors@)))),
            member("context"@, Some(context_json(self.context))),
            member("environment"@, map_opt(map_view(self.environment))),
            member("session"@, map_opt(map_view(self.session))),
            member("params"@, map_opt(map_view(self.params))),
        ]);
        r
    }
}

} // verus!
