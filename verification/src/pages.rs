//! The (tiny) HTML user interface.

use vstd::prelude::*;

use crate::json;
use crate::text;
use crate::validation;

verus! {

/// The style sheet of every page.
pub const STYLE: &'static str = r#"
:root { color-scheme: dark; }
* { box-sizing: border-box; }
body { margin: 0; padding: 1.5rem; font-family: ui-monospace, SFMono-Regular, Menlo, Consolas, monospace; background: #0d1117; color: #c9d1d9; line-height: 1.5; }
a { color: #58a6ff; text-decoration: none; }
a:hover { text-decoration: underline; }
h1 { font-size: 1.2rem; margin: 0; }
.note { color: #8b949e; font-size: 0.85rem; margin: 0.25rem 0 1.25rem; }
.empty { color: #8b949e; }
ul { list-style: none; padding: 0; margin: 0; }
li { margin: 0.4rem 0; }
li a { display: inline-block; padding: 0.5rem 0.75rem; background: #161b22; border: 1px solid #30363d; border-radius: 6px; }
.topbar { display: flex; align-items: baseline; gap: 1rem; flex-wrap: wrap; margin-bottom: 0.75rem; }
#status { font-size: 0.8rem; color: #8b949e; }
pre { background: #161b22; border: 1px solid #30363d; border-radius: 6px; padding: 1rem; overflow: auto; white-space: pre-wrap; word-break: break-word; max-height: 80vh; margin: 0; }
"#;

/// Every page up to its title.
pub const PAGE_TOP: &'static str = "<!doctype html>\n\
     <html lang=\"en\">\n\
     <head>\n\
     <meta charset=\"utf-8\">\n\
     <meta name=\"viewport\" content=\"width=device-width, initial-scale=1\">\n\
     <title>";

/// Every page from the end of its title to its style sheet.
pub const PAGE_LINKS: &'static str = "</title>\n\
     <link rel=\"icon\" type=\"image/svg+xml\" href=\"/favicon.svg\">\n\
     <link rel=\"icon\" type=\"image/png\" href=\"/favicon.png\">\n\
     <link rel=\"apple-touch-icon\" href=\"/apple-touch-icon.png\">\n\
     <style>";

/// Every page from the end of its style sheet to its body.
pub const PAGE_BODY: &'static str = "</style>\n</head>\n<body>\n";

/// Every page from the end of its body on.
pub const PAGE_END: &'static str = "\n</body>\n</html>\n";

/// The index page's body up to the list of sessions.
pub const INDEX_TOP: &'static str = "<h1>tmux-otg</h1>\n\
     <p class=\"note\">Read-only. Listing tmux sessions named <code>public-insecure-*</code>.</p>\n";

/// What stands in place of an empty list of sessions.
pub const INDEX_EMPTY: &'static str =
    "<p class=\"empty\">No <code>public-insecure-*</code> sessions are currently running.</p>";

/// The view page's body up to its heading.
pub const VIEW_TOP: &'static str = "<div class=\"topbar\">\n  ";

/// The view page's body from its heading to the stream's URL.
pub const VIEW_SCRIPT: &'static str = r#"
  <a href="/">← all sessions</a>
  <span id="status">connecting…</span>
</div>
<pre id="out"></pre>
<script>
const out = document.getElementById('out');
const status = document.getElementById('status');
"#;

/// The view page's script from the stream's URL to the subscription.
///
/// Each refresh replaces the whole pane snapshot. The view follows the tail only
/// when the viewer is already at (or near) the bottom.
pub const VIEW_SCROLL: &'static str = r#"// Each refresh replaces the whole pane snapshot. Only follow the tail when the
// viewer is already at (or near) the bottom; if they have scrolled up to read
// scrollback, keep their position instead of snapping them back down. The
// slack absorbs sub-pixel rounding and lets "almost at the bottom" still pin.
const PIN_SLACK_PX = 24;
function atBottom() {
  return out.scrollHeight - out.scrollTop - out.clientHeight <= PIN_SLACK_PX;
}
"#;

/// How the view page subscribes to the stream.
pub const VIEW_SOURCE: &'static str = "const es = new EventSource(url);\n";

/// What the view page does with a snapshot: it shows the text.
pub const VIEW_ON_PANE: &'static str = r#"es.addEventListener('pane', (e) => {
  const pinned = atBottom();
  const prevTop = out.scrollTop;
  out.textContent = JSON.parse(e.data);
"#;

/// What the view page does once a snapshot is shown: it follows the tail or keeps
/// the viewer's position.
pub const VIEW_FOLLOW: &'static str = r#"  status.textContent = 'live';
  if (pinned) {
    out.scrollTop = out.scrollHeight;
  } else {
    out.scrollTop = prevTop;
  }
});
"#;

/// What the view page does if the session is gone: it says so and ends the
/// subscription.
pub const VIEW_ON_GONE: &'static str = r#"es.addEventListener('gone', (e) => {
  status.textContent = JSON.parse(e.data);
  es.close();
});
"#;

/// What the view page does if the connection breaks, and the end of its body.
pub const VIEW_END: &'static str = r#"es.onerror = () => { status.textContent = 'disconnected — retrying…'; };
</script>"#;

/// How one character is written in HTML text and attributes: the five that
/// matter there as a reference, all others as themselves.
pub open spec fn escaped_char(c: char) -> Seq<char> {
    if c == '&' {
        "&amp;"@
    } else if c == '<' {
        "&lt;"@
    } else if c == '>' {
        "&gt;"@
    } else if c == '"' {
        "&quot;"@
    } else if c == '\'' {
        "&#x27;"@
    } else {
        seq![c]
    }
}

/// How a text is written in HTML text and attributes.
pub open spec fn escaped(s: Seq<char>) -> Seq<char>
    decreases s.len(),
{
    if s.len() == 0 {
        seq![]
    } else {
        escaped_char(s[0]) + escaped(s.drop_first())
    }
}

proof fn lemma_escaped_push(s: Seq<char>, c: char)
    ensures
        escaped(s.push(c)) == escaped(s) + escaped_char(c),
    decreases s.len(),
{
    if s.len() == 0 {
        assert(s.push(c).drop_first() =~= seq![]);
        assert(escaped(seq![]) =~= seq![]);
        assert(escaped_char(c) + seq![] =~= seq![] + escaped_char(c));
    } else {
        lemma_escaped_push(s.drop_first(), c);
        assert(s.push(c).drop_first() =~= s.drop_first().push(c));
        assert(escaped_char(s[0]) + (escaped(s.drop_first()) + escaped_char(c)) =~= escaped(s)
            + escaped_char(c));
    }
}

/// Escapes the five characters that matter for HTML text/attribute contexts.
pub fn escape_html(s: &str) -> (out: String)
    ensures
        out@ == escaped(s@),
{
    let mut out = String::new();
    for c in it: s.chars()
        invariant
            it.seq() == s@,
            out@ == escaped(s@.take(it.index())),
    {
        proof {
            lemma_escaped_push(s@.take(it.index()), c);
            assert(s@.take(it.index() + 1) =~= s@.take(it.index()).push(c));
        }
        match c {
            '&' => out.append("&amp;"),
            '<' => out.append("&lt;"),
            '>' => out.append("&gt;"),
            '"' => out.append("&quot;"),
            '\'' => out.append("&#x27;"),
            _ => out.push(c),
        }
    }
    assert(s@.take(s@.len() as int) =~= s@);
    out
}

/// A page with the given title and body.
pub open spec fn page_html(title: Seq<char>, body: Seq<char>) -> Seq<char> {
    PAGE_TOP@ + escaped(title) + PAGE_LINKS@ + STYLE@ + PAGE_BODY@ + body + PAGE_END@
}

/// Minimal HTML page wrapper. `body` is assumed to be already-safe markup;
/// `title` is escaped.
pub fn page(title: &str, body: &str) -> (html: String)
    ensures
        html@ == page_html(title@, body@),
{
    PAGE_TOP.to_owned().concat(escape_html(title).as_str()).concat(PAGE_LINKS).concat(STYLE).concat(
        PAGE_BODY,
    ).concat(body).concat(PAGE_END)
}

/// The list items for the given sessions: each links to its session's view.
pub open spec fn index_items(sessions: Seq<Seq<char>>) -> Seq<char>
    decreases sessions.len(),
{
    if sessions.len() == 0 {
        seq![]
    } else {
        index_items(sessions.drop_last()) + "<li><a href=\"/view/"@ + escaped(sessions.last())
            + "\">"@ + escaped(sessions.last()) + "</a></li>"@
    }
}

/// The index page for the given sessions.
pub open spec fn index_html(sessions: Seq<Seq<char>>) -> Seq<char> {
    page_html(
        "tmux-otg — sessions"@,
        INDEX_TOP@ + (if sessions.len() == 0 {
            INDEX_EMPTY@
        } else {
            "<ul>"@ + index_items(sessions) + "</ul>"@
        }),
    )
}

/// The index page: a list of links to the given sessions.
pub fn render_index(sessions: &[String]) -> (html: String)
    ensures
        html@ == index_html(text::texts(sessions@)),
{
    let ghost names = text::texts(sessions@);
    let list = if sessions.len() == 0 {
        INDEX_EMPTY.to_owned()
    } else {
        let mut items = String::new();
        let mut i: usize = 0;
        while i < sessions.len()
            invariant
                i <= sessions@.len(),
                names == text::texts(sessions@),
                items@ == index_items(names.take(i as int)),
            decreases sessions@.len() - i,
        {
            let safe = escape_html(sessions[i].as_str());
            assert(names.take(i + 1).drop_last() =~= names.take(i as int));
            items.append("<li><a href=\"/view/");
            items.append(safe.as_str());
            items.append("\">");
            items.append(safe.as_str());
            items.append("</a></li>");
            i += 1;
        }
        assert(names.take(i as int) =~= names);
        "<ul>".to_owned().concat(items.as_str()).concat("</ul>")
    };
    let body = INDEX_TOP.to_owned().concat(list.as_str());
    page("tmux-otg — sessions", body.as_str())
}

/// The view page of a session.
pub open spec fn view_html(name: Seq<char>) -> Seq<char> {
    page_html(
        "tmux-otg — "@ + name,
        VIEW_TOP@ + ("<h1>"@ + escaped(name) + "</h1>"@) + VIEW_SCRIPT@ + ("const url = "@
            + json::literal("/stream/"@ + name) + ";\n"@) + VIEW_SCROLL@ + VIEW_SOURCE@
            + VIEW_ON_PANE@ + VIEW_FOLLOW@ + VIEW_ON_GONE@ + VIEW_END@,
    )
}

/// The view page of a session: a thin shell that subscribes to its stream. The
/// stream's URL is written as a JSON string literal, so it is always a valid,
/// safely quoted script string.
pub fn render_view(name: &str) -> (html: String)
    ensures
        html@ == view_html(name@),
{
    let safe = escape_html(name);
    let stream_url = json::json_literal("/stream/".to_owned().concat(name).as_str());
    let heading = "<h1>".to_owned().concat(safe.as_str()).concat("</h1>");
    let target = "const url = ".to_owned().concat(stream_url.as_str()).concat(";\n");
    let body = VIEW_TOP.to_owned().concat(heading.as_str()).concat(VIEW_SCRIPT).concat(
        target.as_str(),
    ).concat(VIEW_SCROLL).concat(VIEW_SOURCE).concat(VIEW_ON_PANE).concat(VIEW_FOLLOW).concat(
        VIEW_ON_GONE,
    ).concat(VIEW_END);
    page("tmux-otg — ".to_owned().concat(name).as_str(), body.as_str())
}

/// A page that reports a problem.
pub open spec fn error_html(heading: Seq<char>, detail: Seq<char>) -> Seq<char> {
    page_html(
        heading,
        "<h1>"@ + escaped(heading) + "</h1>\n<p class=\"note\">"@ + escaped(detail)
            + "</p>\n<p><a href=\"/\">← back to sessions</a></p>"@,
    )
}

/// A page that reports a problem.
pub fn render_error(heading: &str, detail: &str) -> (html: String)
    ensures
        html@ == error_html(heading@, detail@),
{
    let body = "<h1>".to_owned().concat(escape_html(heading).as_str()).concat(
        "</h1>\n<p class=\"note\">",
    ).concat(escape_html(detail).as_str()).concat(
        "</p>\n<p><a href=\"/\">← back to sessions</a></p>",
    );
    page(heading, body.as_str())
}

/// The text that HTML text or an attribute value stands for, as far as the five
/// references go that are written for special characters.
pub open spec fn unescaped(s: Seq<char>) -> Seq<char>
    decreases s.len(),
{
    proof {
        reveal_strlit("&amp;");
        reveal_strlit("&lt;");
        reveal_strlit("&gt;");
        reveal_strlit("&quot;");
        reveal_strlit("&#x27;");
    }
    if s.len() == 0 {
        seq![]
    } else if text::occurs_at(s, "&amp;"@, 0) {
        seq!['&'] + unescaped(s.skip(5))
    } else if text::occurs_at(s, "&lt;"@, 0) {
        seq!['<'] + unescaped(s.skip(4))
    } else if text::occurs_at(s, "&gt;"@, 0) {
        seq!['>'] + unescaped(s.skip(4))
    } else if text::occurs_at(s, "&quot;"@, 0) {
        seq!['"'] + unescaped(s.skip(6))
    } else if text::occurs_at(s, "&#x27;"@, 0) {
        seq!['\''] + unescaped(s.skip(6))
    } else {
        seq![s[0]] + unescaped(s.skip(1))
    }
}

proof fn lemma_references()
    ensures
        "&amp;"@ == seq!['&', 'a', 'm', 'p', ';'],
        "&lt;"@ == seq!['&', 'l', 't', ';'],
        "&gt;"@ == seq!['&', 'g', 't', ';'],
        "&quot;"@ == seq!['&', 'q', 'u', 'o', 't', ';'],
        "&#x27;"@ == seq!['&', '#', 'x', '2', '7', ';'],
{
    reveal_strlit("&amp;");
    reveal_strlit("&lt;");
    reveal_strlit("&gt;");
    reveal_strlit("&quot;");
    reveal_strlit("&#x27;");
    assert("&amp;"@ =~= seq!['&', 'a', 'm', 'p', ';']);
    assert("&lt;"@ =~= seq!['&', 'l', 't', ';']);
    assert("&gt;"@ =~= seq!['&', 'g', 't', ';']);
    assert("&quot;"@ =~= seq!['&', 'q', 'u', 'o', 't', ';']);
    assert("&#x27;"@ =~= seq!['&', '#', 'x', '2', '7', ';']);
}

proof fn lemma_not_at(s: Seq<char>, needle: Seq<char>, k: int)
    requires
        0 <= k < needle.len(),
        k < s.len() ==> s[k] != needle[k],
    ensures
        !text::occurs_at(s, needle, 0),
{
    if text::occurs_at(s, needle, 0) {
        assert(s.subrange(0, needle.len() as int)[k] == needle[k]);
    }
}

/// Reading escaped text back gives the text that was escaped.
pub proof fn unescaped_escaped(s: Seq<char>)
    ensures
        unescaped(escaped(s)) == s,
    decreases s.len(),
{
    lemma_references();
    if s.len() > 0 {
        let c = s[0];
        let head = escaped_char(c);
        let rest = escaped(s.drop_first());
        let all = escaped(s);
        unescaped_escaped(s.drop_first());
        assert(all.skip(head.len() as int) =~= rest);
        assert(all.subrange(0, head.len() as int) =~= head);
        assert(seq![c] + s.drop_first() =~= s);
        if c == '&' {
            assert(text::occurs_at(all, "&amp;"@, 0));
        } else if c == '<' {
            lemma_not_at(all, "&amp;"@, 1);
            assert(text::occurs_at(all, "&lt;"@, 0));
        } else if c == '>' {
            lemma_not_at(all, "&amp;"@, 1);
            lemma_not_at(all, "&lt;"@, 1);
            assert(text::occurs_at(all, "&gt;"@, 0));
        } else if c == '"' {
            lemma_not_at(all, "&amp;"@, 1);
            lemma_not_at(all, "&lt;"@, 1);
            lemma_not_at(all, "&gt;"@, 1);
            assert(text::occurs_at(all, "&quot;"@, 0));
        } else if c == '\'' {
            lemma_not_at(all, "&amp;"@, 1);
            lemma_not_at(all, "&lt;"@, 1);
            lemma_not_at(all, "&gt;"@, 1);
            lemma_not_at(all, "&quot;"@, 1);
            assert(text::occurs_at(all, "&#x27;"@, 0));
        } else {
            lemma_not_at(all, "&amp;"@, 0);
            lemma_not_at(all, "&lt;"@, 0);
            lemma_not_at(all, "&gt;"@, 0);
            lemma_not_at(all, "&quot;"@, 0);
            lemma_not_at(all, "&#x27;"@, 0);
        }
    }
}

/// Whether one of the five references stands in `s` at position `i`.
pub open spec fn reference_at(s: Seq<char>, i: int) -> bool {
    ||| text::occurs_at(s, "&amp;"@, i)
    ||| text::occurs_at(s, "&lt;"@, i)
    ||| text::occurs_at(s, "&gt;"@, i)
    ||| text::occurs_at(s, "&quot;"@, i)
    ||| text::occurs_at(s, "&#x27;"@, i)
}

/// Escaped text is no markup: it holds no angle bracket and no quote, and an
/// ampersand only as the start of one of the five references.
pub proof fn escaped_text_is_no_markup(s: Seq<char>)
    ensures
        !escaped(s).contains('<'),
        !escaped(s).contains('>'),
        !escaped(s).contains('"'),
        !escaped(s).contains('\''),
        forall|i: int|
            0 <= i < escaped(s).len() && #[trigger] escaped(s)[i] == '&' ==> reference_at(
                escaped(s),
                i,
            ),
    decreases s.len(),
{
    lemma_references();
    if s.len() > 0 {
        let head = escaped_char(s[0]);
        let rest = escaped(s.drop_first());
        let all = escaped(s);
        escaped_text_is_no_markup(s.drop_first());
        assert forall|i: int| 0 <= i < all.len() implies #[trigger] all[i] != '<' && all[i] != '>'
            && all[i] != '"' && all[i] != '\'' && (all[i] == '&' ==> reference_at(all, i)) by {
            if i < head.len() {
                assert(all[i] == head[i]);
                if all[i] == '&' {
                    assert(i == 0);
                    assert(all.subrange(0, head.len() as int) =~= head);
                }
            } else {
                let k = i - head.len();
                assert(all[i] == rest[k]);
                assert(rest.contains(rest[k]));
                if all[i] == '&' {
                    assert(reference_at(rest, k));
                    lemma_occurs_shifted(head, rest, "&amp;"@, k);
                    lemma_occurs_shifted(head, rest, "&lt;"@, k);
                    lemma_occurs_shifted(head, rest, "&gt;"@, k);
                    lemma_occurs_shifted(head, rest, "&quot;"@, k);
                    lemma_occurs_shifted(head, rest, "&#x27;"@, k);
                }
            }
        }
    }
}

proof fn lemma_occurs_shifted(head: Seq<char>, rest: Seq<char>, needle: Seq<char>, k: int)
    ensures
        text::occurs_at(rest, needle, k) ==> text::occurs_at(
            head + rest,
            needle,
            head.len() + k,
        ),
{
    if text::occurs_at(rest, needle, k) {
        assert((head + rest).subrange(head.len() + k, head.len() + k + needle.len())
            =~= rest.subrange(k, k + needle.len()));
    }
}

/// The characters of an allowed session name are passed through untouched.
pub proof fn allowed_name_needs_no_escaping(name: Seq<char>)
    requires
        validation::allowed_name(name),
    ensures
        escaped(name) == name,
        json::literal("/stream/"@ + name) == "\"/stream/"@ + name + "\""@,
{
    lemma_escaped_plain(name);
    reveal_strlit("/stream/");
    reveal_strlit("\"/stream/");
    reveal_strlit("\"");
    let url = "/stream/"@ + name;
    assert forall|i: int| 0 <= i < url.len() implies #[trigger] url[i] >= ' ' && url[i] != '"'
        && url[i] != '\\' by {
        if i >= 8 {
            assert(url[i] == name[i - 8]);
        }
    }
    json::literal_of_plain_text(url);
    assert(seq!['"'] + url + seq!['"'] =~= "\"/stream/"@ + name + "\""@);
}

proof fn lemma_escaped_plain(s: Seq<char>)
    requires
        forall|i: int| 0 <= i < s.len() ==> validation::name_char(#[trigger] s[i]),
    ensures
        escaped(s) == s,
    decreases s.len(),
{
    if s.len() > 0 {
        lemma_escaped_plain(s.drop_first());
        assert(seq![s[0]] + s.drop_first() =~= s);
    }
}

/// Texts are escaped character by character, so the escaped form of two texts, one
/// after the other, is that of the first and then that of the second. Five
/// characters are written as references; any other stands for itself.
pub proof fn escaping_is_per_character(a: Seq<char>, b: Seq<char>, c: char)
    ensures
        escaped(a + b) == escaped(a) + escaped(b),
        escaped(seq![]) == Seq::<char>::empty(),
        escaped(seq!['&']) == "&amp;"@,
        escaped(seq!['<']) == "&lt;"@,
        escaped(seq!['>']) == "&gt;"@,
        escaped(seq!['"']) == "&quot;"@,
        escaped(seq!['\'']) == "&#x27;"@,
        c != '&' && c != '<' && c != '>' && c != '"' && c != '\'' ==> escaped(seq![c]) == seq![c],
    decreases a.len(),
{
    lemma_escaped_one('&');
    lemma_escaped_one('<');
    lemma_escaped_one('>');
    lemma_escaped_one('"');
    lemma_escaped_one('\'');
    lemma_escaped_one(c);
    if a.len() == 0 {
        assert(a + b =~= b);
        assert(escaped(a) + escaped(b) =~= escaped(b));
    } else {
        let rest = a.drop_first();
        escaping_is_per_character(rest, b, c);
        assert((a + b).drop_first() =~= rest + b);
        assert(escaped_char(a[0]) + (escaped(rest) + escaped(b)) =~= escaped_char(a[0]) + escaped(
            rest,
        ) + escaped(b));
    }
}

proof fn lemma_escaped_one(c: char)
    ensures
        escaped(seq![c]) == escaped_char(c),
{
    assert(seq![c].drop_first() =~= seq![]);
    assert(escaped_char(c) + escaped(seq![]) =~= escaped_char(c));
}

/// Two pages differ in the escaped title and the body alone, and each has both:
/// all that stands around them is the same.
pub proof fn pages_share_a_frame(
    title: Seq<char>,
    body: Seq<char>,
    other_title: Seq<char>,
    other_body: Seq<char>,
)
    ensures
        exists|a: Seq<char>, b: Seq<char>, c: Seq<char>|
            {
                &&& page_html(title, body) == #[trigger] (a + escaped(title) + b + body + c)
                &&& page_html(other_title, other_body) == a + escaped(other_title) + b + other_body
                    + c
            },
{
    let a = PAGE_TOP@;
    let b = PAGE_LINKS@ + STYLE@ + PAGE_BODY@;
    let c = PAGE_END@;
    lemma_page_parts(title, body);
    lemma_page_parts(other_title, other_body);
    assert(page_html(title, body) == a + escaped(title) + b + body + c);
}

proof fn lemma_page_parts(title: Seq<char>, body: Seq<char>)
    ensures
        page_html(title, body) == PAGE_TOP@ + escaped(title) + (PAGE_LINKS@ + STYLE@ + PAGE_BODY@)
            + body + PAGE_END@,
{
    assert(page_html(title, body) =~= PAGE_TOP@ + escaped(title) + (PAGE_LINKS@ + STYLE@
        + PAGE_BODY@) + body + PAGE_END@);
}

/// The list item of a session: a link to its view, under its name.
spec fn index_item(name: Seq<char>) -> Seq<char> {
    "<li>"@ + ("<a href=\"/view/"@ + escaped(name) + "\">"@ + escaped(name) + "</a>"@) + "</li>"@
}

/// The index page up to the first item of a list of sessions.
spec fn index_top() -> Seq<char> {
    PAGE_TOP@ + escaped("tmux-otg — sessions"@) + PAGE_LINKS@ + STYLE@ + PAGE_BODY@ + INDEX_TOP@
        + "<ul>"@
}

/// The index page after the last item of a list of sessions.
spec fn index_bottom() -> Seq<char> {
    "</ul>"@ + PAGE_END@
}

proof fn lemma_index_parts(sessions: Seq<Seq<char>>)
    requires
        sessions.len() > 0,
    ensures
        index_html(sessions) == index_top() + index_items(sessions) + index_bottom(),
{
    assert(index_html(sessions) =~= index_top() + index_items(sessions) + index_bottom());
}

proof fn lemma_index_item_parts(sessions: Seq<Seq<char>>)
    requires
        sessions.len() > 0,
    ensures
        index_items(sessions) == index_items(sessions.drop_last()) + index_item(sessions.last()),
{
    reveal_strlit("<li><a href=\"/view/");
    reveal_strlit("<li>");
    reveal_strlit("<a href=\"/view/");
    reveal_strlit("</a></li>");
    reveal_strlit("</a>");
    reveal_strlit("</li>");
    assert("<li><a href=\"/view/"@ =~= "<li>"@ + "<a href=\"/view/"@);
    assert("</a></li>"@ =~= "</a>"@ + "</li>"@);
    assert(index_items(sessions) =~= index_items(sessions.drop_last()) + index_item(
        sessions.last(),
    ));
}

/// Where the link of the `i`-th session stands in the list items.
spec fn link_position(sessions: Seq<Seq<char>>, i: int) -> int {
    index_items(sessions.take(i)).len() as int + "<li>"@.len()
}

/// Every session of the list has its link in the index page, to its view and under
/// its name, and the links stand in the order of the list: `at` tells where.
pub proof fn index_links_every_session(sessions: &[String], html: String)
    requires
        call_ensures(render_index, (sessions,), html),
    ensures
        exists|at: Seq<int>|
            {
                &&& #[trigger] at.len() == sessions@.len()
                &&& forall|i: int|
                    0 <= i < sessions@.len() ==> text::occurs_at(
                        html@,
                        "<a href=\"/view/"@ + escaped((#[trigger] sessions@[i])@) + "\">"@
                            + escaped(sessions@[i]@) + "</a>"@,
                        at[i],
                    )
                &&& forall|i: int, k: int|
                    0 <= i < k < sessions@.len() ==> #[trigger] at[i] < #[trigger] at[k]
            },
{
    let names = text::texts(sessions@);
    let n = names.len() as int;
    let at = Seq::new(names.len(), |i: int| index_top().len() + link_position(names, i));
    assert(html@ == index_html(names));
    if n > 0 {
        lemma_index_parts(names);
        assert(names.take(n) =~= names);
        assert forall|i: int| 0 <= i < n implies text::occurs_at(
            html@,
            "<a href=\"/view/"@ + escaped((#[trigger] sessions@[i])@) + "\">"@ + escaped(
                sessions@[i]@,
            ) + "</a>"@,
            at[i],
        ) by {
            assert(names[i] == sessions@[i]@);
            let link = "<a href=\"/view/"@ + escaped(names[i]) + "\">"@ + escaped(names[i])
                + "</a>"@;
            let items = index_items(names);
            lemma_link_in_items(names, i, n);
            assert(items.subrange(link_position(names, i), link_position(names, i) + link.len())
                == link);
            assert(html@.subrange(at[i], at[i] + link.len()) =~= items.subrange(
                link_position(names, i),
                link_position(names, i) + link.len(),
            ));
        }
        assert forall|i: int, k: int| 0 <= i < k < n implies #[trigger] at[i] < #[trigger] at[k] by {
            lemma_items_grow(names, i, k);
        }
    }
    assert(at.len() == sessions@.len());
}

proof fn lemma_link_in_items(sessions: Seq<Seq<char>>, i: int, n: int)
    requires
        0 <= i < n <= sessions.len(),
    ensures
        text::occurs_at(
            index_items(sessions.take(n)),
            "<a href=\"/view/"@ + escaped(sessions[i]) + "\">"@ + escaped(sessions[i]) + "</a>"@,
            link_position(sessions, i),
        ),
    decreases n,
{
    let shown = sessions.take(n);
    let link = "<a href=\"/view/"@ + escaped(sessions[i]) + "\">"@ + escaped(sessions[i]) + "</a>"@;
    lemma_index_item_parts(shown);
    assert(shown.drop_last() =~= sessions.take(n - 1));
    let earlier = index_items(sessions.take(n - 1));
    let item = index_item(shown.last());
    if i == n - 1 {
        assert(index_items(shown) =~= (earlier + "<li>"@) + link + "</li>"@);
        text::lemma_occurs_between(earlier + "<li>"@, link, "</li>"@);
    } else {
        lemma_link_in_items(sessions, i, n - 1);
        let p = link_position(sessions, i);
        assert((earlier + item).subrange(p, p + link.len()) =~= earlier.subrange(
            p,
            p + link.len(),
        ));
    }
}

proof fn lemma_items_grow(sessions: Seq<Seq<char>>, i: int, k: int)
    requires
        0 <= i < k <= sessions.len(),
    ensures
        index_items(sessions.take(i)).len() < index_items(sessions.take(k)).len(),
    decreases k - i,
{
    let shown = sessions.take(k);
    lemma_index_item_parts(shown);
    assert(shown.drop_last() =~= sessions.take(k - 1));
    reveal_strlit("<li>");
    assert("<li>"@.len() == 4);
    if i < k - 1 {
        lemma_items_grow(sessions, i, k - 1);
    }
}

/// One more session adds one more list item behind the others, with the link to its
/// view, and leaves the rest of the index page as it is.
pub proof fn index_grows_by_one_item(sessions: Seq<Seq<char>>, name: Seq<char>)
    requires
        sessions.len() > 0,
    ensures
        exists|at: int|
            {
                &&& 0 <= at <= index_html(sessions).len()
                &&& #[trigger] text::occurs_at(index_html(sessions), "</ul>"@, at)
                &&& index_html(sessions.push(name)) == index_html(sessions).take(at) + "<li>"@ + (
                "<a href=\"/view/"@ + escaped(name) + "\">"@ + escaped(name) + "</a>"@) + "</li>"@
                    + index_html(sessions).skip(at)
            },
{
    let more = sessions.push(name);
    let items = index_items(sessions);
    lemma_index_parts(sessions);
    lemma_index_parts(more);
    lemma_index_item_parts(more);
    assert(more.drop_last() =~= sessions);
    let page = index_html(sessions);
    let at = (index_top() + items).len() as int;
    assert(page.take(at) =~= index_top() + items);
    assert(page.skip(at) =~= index_bottom());
    assert(page =~= (index_top() + items) + "</ul>"@ + PAGE_END@);
    text::lemma_occurs_between(index_top() + items, "</ul>"@, PAGE_END@);
    assert(text::occurs_at(page, "</ul>"@, at));
    assert(index_html(more) =~= page.take(at) + "<li>"@ + ("<a href=\"/view/"@ + escaped(name)
        + "\">"@ + escaped(name) + "</a>"@) + "</li>"@ + page.skip(at));
}

/// The index pages of two single sessions differ in the link alone.
pub proof fn index_pages_share_a_frame(name: Seq<char>, other: Seq<char>)
    ensures
        exists|a: Seq<char>, b: Seq<char>|
            {
                &&& index_html(seq![name]) == #[trigger] (a + ("<a href=\"/view/"@ + escaped(name)
                    + "\">"@ + escaped(name) + "</a>"@) + b)
                &&& index_html(seq![other]) == a + ("<a href=\"/view/"@ + escaped(other) + "\">"@
                    + escaped(other) + "</a>"@) + b
            },
{
    let a = index_top() + "<li>"@;
    let b = "</li>"@ + index_bottom();
    lemma_index_of_one(name);
    lemma_index_of_one(other);
    assert(index_html(seq![name]) == a + ("<a href=\"/view/"@ + escaped(name) + "\">"@ + escaped(
        name,
    ) + "</a>"@) + b);
}

proof fn lemma_index_of_one(name: Seq<char>)
    ensures
        index_html(seq![name]) == (index_top() + "<li>"@) + ("<a href=\"/view/"@ + escaped(name)
            + "\">"@ + escaped(name) + "</a>"@) + ("</li>"@ + index_bottom()),
{
    lemma_index_parts(seq![name]);
    lemma_index_item_parts(seq![name]);
    assert(seq![name].drop_last() =~= seq![]);
    assert(index_html(seq![name]) =~= (index_top() + "<li>"@) + ("<a href=\"/view/"@ + escaped(name)
        + "\">"@ + escaped(name) + "</a>"@) + ("</li>"@ + index_bottom()));
}

/// The pages of two problems differ in the escaped headings and details alone; each
/// shows its heading and its detail.
pub proof fn error_pages_show_the_problem(
    heading: Seq<char>,
    detail: Seq<char>,
    other_heading: Seq<char>,
    other_detail: Seq<char>,
)
    ensures
        text::occurs_in("<h1>"@ + escaped(heading) + "</h1>"@, error_html(heading, detail)),
        text::occurs_in(
            "<p class=\"note\">"@ + escaped(detail) + "</p>"@,
            error_html(heading, detail),
        ),
        exists|a: Seq<char>, b: Seq<char>, c: Seq<char>, d: Seq<char>|
            {
                &&& error_html(heading, detail) == #[trigger] (a + escaped(heading) + b + escaped(
                    heading,
                ) + c + escaped(detail) + d)
                &&& error_html(other_heading, other_detail) == a + escaped(other_heading) + b
                    + escaped(other_heading) + c + escaped(other_detail) + d
            },
{
    let a = PAGE_TOP@;
    let b = PAGE_LINKS@ + STYLE@ + PAGE_BODY@ + "<h1>"@;
    let c = "</h1>\n<p class=\"note\">"@;
    let d = "</p>\n<p><a href=\"/\">← back to sessions</a></p>"@ + PAGE_END@;
    let page = error_html(heading, detail);
    let h = escaped(heading);
    let t = escaped(detail);
    assert(page =~= a + h + b + h + c + t + d);
    assert(error_html(other_heading, other_detail) =~= a + escaped(other_heading) + b + escaped(
        other_heading,
    ) + c + escaped(other_detail) + d);
    reveal_strlit("</h1>\n<p class=\"note\">");
    reveal_strlit("</h1>");
    reveal_strlit("\n");
    reveal_strlit("<p class=\"note\">");
    reveal_strlit("</p>\n<p><a href=\"/\">← back to sessions</a></p>");
    reveal_strlit("</p>");
    let rest = "</p>\n<p><a href=\"/\">← back to sessions</a></p>"@.skip(4);
    assert(c =~= "</h1>"@ + "\n"@ + "<p class=\"note\">"@);
    assert("</p>\n<p><a href=\"/\">← back to sessions</a></p>"@ =~= "</p>"@ + rest);
    let before = a + h + (PAGE_LINKS@ + STYLE@ + PAGE_BODY@);
    let shown = "<h1>"@ + h + "</h1>"@;
    let after = "\n"@ + "<p class=\"note\">"@ + t + d;
    assert(page =~= before + shown + after);
    text::lemma_occurs_between(before, shown, after);
    let note = "<p class=\"note\">"@ + t + "</p>"@;
    let before_note = a + h + b + h + "</h1>"@ + "\n"@;
    let after_note = rest + PAGE_END@;
    assert(page =~= before_note + note + after_note);
    text::lemma_occurs_between(before_note, note, after_note);
}

/// The view page of any session shows its name, subscribes to the stream of this
/// session, and listens for both kinds of events: the data of a `pane` event is
/// parsed and shown, and that of a `gone` event is parsed and ends the
/// subscription.
pub proof fn view_page_follows_its_stream(name: &str, html: String)
    requires
        call_ensures(render_view, (name,), html),
    ensures
        text::occurs_in("<h1>"@ + escaped(name@) + "</h1>"@, html@),
        exists|url: Seq<char>|
            json::parsed(url) == Some("/stream/"@ + name@) && #[trigger] text::occurs_in(
                "const url = "@ + url + ";\n"@,
                html@,
            ),
        text::occurs_in("const es = new EventSource(url);\n"@, html@),
        text::occurs_in(
            r#"es.addEventListener('pane', (e) => {
  const pinned = atBottom();
  const prevTop = out.scrollTop;
  out.textContent = JSON.parse(e.data);
"#@,
            html@,
        ),
        text::occurs_in(
            r#"es.addEventListener('gone', (e) => {
  status.textContent = JSON.parse(e.data);
  es.close();
});
"#@,
            html@,
        ),
{
    let url = json::literal("/stream/"@ + name@);
    json::parsed_literal("/stream/"@ + name@);
    let heading = "<h1>"@ + escaped(name@) + "</h1>"@;
    let target = "const url = "@ + url + ";\n"@;
    let body = VIEW_TOP@ + heading + VIEW_SCRIPT@ + target + VIEW_SCROLL@ + VIEW_SOURCE@
        + VIEW_ON_PANE@ + VIEW_FOLLOW@ + VIEW_ON_GONE@ + VIEW_END@;
    let title = "tmux-otg — "@ + name@;
    let top = PAGE_TOP@ + escaped(title) + PAGE_LINKS@ + STYLE@ + PAGE_BODY@;
    assert(html@ == top + body + PAGE_END@);
    lemma_occurs_in_ten(
        VIEW_TOP@,
        heading,
        VIEW_SCRIPT@,
        target,
        VIEW_SCROLL@,
        VIEW_SOURCE@,
        VIEW_ON_PANE@,
        VIEW_FOLLOW@,
        VIEW_ON_GONE@,
        VIEW_END@,
    );
    lemma_occurs_inside(top, body, PAGE_END@, heading);
    lemma_occurs_inside(top, body, PAGE_END@, target);
    assert(text::occurs_in("const url = "@ + url + ";\n"@, html@));
    lemma_occurs_inside(top, body, PAGE_END@, VIEW_SOURCE@);
    lemma_occurs_inside(top, body, PAGE_END@, VIEW_ON_PANE@);
    lemma_occurs_inside(top, body, PAGE_END@, VIEW_ON_GONE@);
}

proof fn lemma_occurs_inside(
    before: Seq<char>,
    hay: Seq<char>,
    after: Seq<char>,
    needle: Seq<char>,
)
    requires
        text::occurs_in(needle, hay),
    ensures
        text::occurs_in(needle, before + hay + after),
{
    let i = choose|i: int| text::occurs_at(hay, needle, i);
    let k = before.len() as int + i;
    assert((before + hay + after).subrange(k, k + needle.len()) =~= hay.subrange(
        i,
        i + needle.len(),
    ));
    assert(text::occurs_at(before + hay + after, needle, k));
}

proof fn lemma_occurs_in_ten(
    a: Seq<char>,
    b: Seq<char>,
    c: Seq<char>,
    d: Seq<char>,
    e: Seq<char>,
    f: Seq<char>,
    g: Seq<char>,
    h: Seq<char>,
    i: Seq<char>,
    j: Seq<char>,
)
    ensures
        text::occurs_in(b, a + b + c + d + e + f + g + h + i + j),
        text::occurs_in(d, a + b + c + d + e + f + g + h + i + j),
        text::occurs_in(f, a + b + c + d + e + f + g + h + i + j),
        text::occurs_in(g, a + b + c + d + e + f + g + h + i + j),
        text::occurs_in(i, a + b + c + d + e + f + g + h + i + j),
{
    let none = Seq::<char>::empty();
    let ab = a + b;
    let abcd = ab + c + d;
    let abcdef = abcd + e + f;
    let abcdefg = abcdef + g;
    let abcdefghi = abcdefg + h + i;
    text::lemma_occurs_between(a, b, none);
    assert(a + b + none =~= ab);
    text::lemma_occurs_between(ab + c, d, none);
    assert(ab + c + d + none =~= abcd);
    text::lemma_occurs_between(abcd + e, f, none);
    assert(abcd + e + f + none =~= abcdef);
    text::lemma_occurs_between(abcdef, g, none);
    assert(abcdef + g + none =~= abcdefg);
    text::lemma_occurs_between(abcdefg + h, i, none);
    assert(abcdefg + h + i + none =~= abcdefghi);
    lemma_occurs_followed(ab, c + d, b);
    assert(ab + (c + d) =~= abcd);
    lemma_occurs_followed(abcd, e + f, b);
    lemma_occurs_followed(abcd, e + f, d);
    assert(abcd + (e + f) =~= abcdef);
    lemma_occurs_followed(abcdef, g, b);
    lemma_occurs_followed(abcdef, g, d);
    lemma_occurs_followed(abcdef, g, f);
    lemma_occurs_followed(abcdefg, h + i, b);
    lemma_occurs_followed(abcdefg, h + i, d);
    lemma_occurs_followed(abcdefg, h + i, f);
    lemma_occurs_followed(abcdefg, h + i, g);
    assert(abcdefg + (h + i) =~= abcdefghi);
    lemma_occurs_followed(abcdefghi, j, b);
    lemma_occurs_followed(abcdefghi, j, d);
    lemma_occurs_followed(abcdefghi, j, f);
    lemma_occurs_followed(abcdefghi, j, g);
    lemma_occurs_followed(abcdefghi, j, i);
}

proof fn lemma_occurs_followed(hay: Seq<char>, after: Seq<char>, needle: Seq<char>)
    requires
        text::occurs_in(needle, hay),
    ensures
        text::occurs_in(needle, hay + after),
{
    lemma_occurs_inside(Seq::empty(), hay, after, needle);
    assert(Seq::<char>::empty() + hay + after =~= hay + after);
}

/// The view pages of two sessions differ in the escaped name, in the title and in
/// the heading, and in the stream's URL alone.
pub proof fn view_pages_share_a_frame(name: Seq<char>, other: Seq<char>)
    ensures
        exists|a: Seq<char>, b: Seq<char>, c: Seq<char>, d: Seq<char>|
            {
                &&& view_html(name) == #[trigger] (a + escaped(name) + b + escaped(name) + c
                    + json::literal("/stream/"@ + name) + d)
                &&& view_html(other) == a + escaped(other) + b + escaped(other) + c + json::literal(
                    "/stream/"@ + other,
                ) + d
            },
{
    let a = PAGE_TOP@ + escaped("tmux-otg — "@);
    let b = PAGE_LINKS@ + STYLE@ + PAGE_BODY@ + VIEW_TOP@ + "<h1>"@;
    let c = "</h1>"@ + VIEW_SCRIPT@ + "const url = "@;
    let d = view_script();
    lemma_view_parts(name);
    lemma_view_parts(other);
    assert(view_html(name) == a + escaped(name) + b + escaped(name) + c + json::literal(
        "/stream/"@ + name,
    ) + d);
}

/// The view page from the stream's URL on.
spec fn view_script() -> Seq<char> {
    ";\n"@ + VIEW_SCROLL@ + VIEW_SOURCE@ + VIEW_ON_PANE@ + VIEW_FOLLOW@ + VIEW_ON_GONE@ + VIEW_END@
        + PAGE_END@
}

proof fn lemma_view_parts(name: Seq<char>)
    ensures
        view_html(name) == PAGE_TOP@ + escaped("tmux-otg — "@) + escaped(name) + (PAGE_LINKS@
            + STYLE@ + PAGE_BODY@ + VIEW_TOP@ + "<h1>"@) + escaped(name) + ("</h1>"@ + VIEW_SCRIPT@
            + "const url = "@) + json::literal("/stream/"@ + name) + view_script(),
{
    let n = escaped(name);
    let url = json::literal("/stream/"@ + name);
    escaping_is_per_character("tmux-otg — "@, name, ' ');
    lemma_top_regrouped(
        PAGE_TOP@,
        escaped("tmux-otg — "@),
        n,
        PAGE_LINKS@ + STYLE@ + PAGE_BODY@,
        VIEW_TOP@,
        "<h1>"@,
        "</h1>"@,
        VIEW_SCRIPT@,
        "const url = "@,
        url,
        view_script(),
    );
    lemma_script_regrouped(
        VIEW_TOP@ + ("<h1>"@ + n + "</h1>"@) + VIEW_SCRIPT@,
        "const url = "@ + url,
        ";\n"@,
        VIEW_SCROLL@,
        VIEW_SOURCE@,
        VIEW_ON_PANE@,
        VIEW_FOLLOW@,
        VIEW_ON_GONE@,
        VIEW_END@,
    );
    let head = VIEW_TOP@ + ("<h1>"@ + n + "</h1>"@) + VIEW_SCRIPT@ + ("const url = "@ + url);
    let tail = ";\n"@ + VIEW_SCROLL@ + VIEW_SOURCE@ + VIEW_ON_PANE@ + VIEW_FOLLOW@ + VIEW_ON_GONE@
        + VIEW_END@;
    let top = PAGE_TOP@ + escaped("tmux-otg — "@ + name) + PAGE_LINKS@ + STYLE@ + PAGE_BODY@;
    assert(view_html(name) == top + (head + tail) + PAGE_END@);
    assert(top + (head + tail) + PAGE_END@ =~= top + head + (tail + PAGE_END@));
    assert(top =~= PAGE_TOP@ + (escaped("tmux-otg — "@) + n) + (PAGE_LINKS@ + STYLE@ + PAGE_BODY@));
}

proof fn lemma_script_regrouped(
    a: Seq<char>,
    b: Seq<char>,
    c: Seq<char>,
    d: Seq<char>,
    e: Seq<char>,
    f: Seq<char>,
    g: Seq<char>,
    h: Seq<char>,
    i: Seq<char>,
)
    ensures
        a + (b + c) + d + e + f + g + h + i == a + b + (c + d + e + f + g + h + i),
{
    assert(a + (b + c) + d + e + f + g + h + i =~= a + b + (c + d + e + f + g + h + i));
}

proof fn lemma_top_regrouped(
    p: Seq<char>,
    t: Seq<char>,
    n: Seq<char>,
    l: Seq<char>,
    v: Seq<char>,
    h: Seq<char>,
    i: Seq<char>,
    s: Seq<char>,
    c: Seq<char>,
    u: Seq<char>,
    r: Seq<char>,
)
    ensures
        p + (t + n) + l + (v + (h + n + i) + s + (c + u)) + r == p + t + n + (l + v + h) + n + (i + s
            + c) + u + r,
{
    assert(p + (t + n) + l + (v + (h + n + i) + s + (c + u)) + r =~= p + t + n + (l + v + h) + n + (i
        + s + c) + u + r);
}

} // verus!
