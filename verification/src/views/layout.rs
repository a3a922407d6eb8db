//! Base HTML layout for traceview pages.

use vstd::prelude::*;

use crate::markup::{
    has_infix, html_escape, lemma_add_assoc, lemma_infix_left, lemma_infix_refl, lemma_infix_right,
    lemma_prefix_right, push_escaped, Markup,
};

verus! {

/// Minimal custom CSS to complement Pico.css.
pub const MINIMAL_CSS: &'static str = r#"
/* Token summary bar */
.token-summary { display: flex; gap: 1rem; flex-wrap: wrap; margin-bottom: 1rem; }
.token-stat { font-size: 0.875rem; color: var(--pico-muted-color); }
.token-total { font-weight: 600; color: var(--pico-primary); }

/* Filter buttons - use Pico's role="group" */
[role="group"] button.active { background: var(--pico-primary); color: var(--pico-primary-inverse); }

/* Spans styling */
.span { margin-bottom: 0.5rem; padding: 0.75rem; border-radius: var(--pico-border-radius); border-left: 3px solid var(--pico-muted-border-color); }
.span[data-kind="user"] { border-left-color: var(--pico-primary); background: var(--pico-primary-focus); }
.span[data-kind="assistant"] { border-left-color: #22c55e; background: rgba(34, 197, 94, 0.1); }
.span[data-kind="tool_call"], .span[data-kind="tool_result"] { border-left-color: #f59e0b; background: rgba(245, 158, 11, 0.1); }
.span[data-kind="thinking"] { border-left-color: #8b5cf6; background: rgba(139, 92, 246, 0.1); }
.span[data-kind="system"] { border-left-color: #6b7280; background: rgba(107, 114, 128, 0.1); font-style: italic; }

/* Span header */
.span-header { display: flex; justify-content: space-between; align-items: center; margin-bottom: 0.25rem; }
.span-kind { font-size: 0.75rem; text-transform: uppercase; font-weight: 600; opacity: 0.7; }
.span-meta { font-size: 0.75rem; color: var(--pico-muted-color); }

/* Content area */
.span-content { margin-top: 0.5rem; white-space: pre-wrap; font-size: 0.875rem; }

/* Tool details - collapsible */
details.tool-details { margin: 0; }
details.tool-details summary { cursor: pointer; padding: 0.5rem; margin: -0.5rem; }
details.tool-details summary::-webkit-details-marker { display: none; }
details.tool-details summary::before { content: "▶ "; font-size: 0.75rem; }
details.tool-details[open] summary::before { content: "▼ "; }
.tool-content { margin-top: 0.5rem; padding: 0.5rem; background: var(--pico-code-background-color); border-radius: var(--pico-border-radius); }
.tool-content pre { margin: 0; white-space: pre-wrap; font-size: 0.8rem; }

/* Copy button */
.copy-btn { font-size: 0.75rem; padding: 0.25rem 0.5rem; margin-left: 0.5rem; }

/* Session list */
.session-item { border-bottom: 1px solid var(--pico-muted-border-color); }
.session-item:last-child { border-bottom: none; }
.session-meta { font-size: 0.75rem; color: var(--pico-muted-color); display: block; }

/* Animation for new items */
@keyframes highlight { from { background: var(--pico-primary-focus); } to { background: transparent; } }
.session-item-new { animation: highlight 2s ease-out; }

/* Hide wrapper spans with no content */
.span.wrapper-span { display: none; }
"#;

/// The JavaScript for theme toggle functionality.
pub const THEME_SCRIPT: &'static str = r#"
(function() {
    var savedTheme = localStorage.getItem('traceview-theme') || 'light';
    document.documentElement.dataset.theme = savedTheme;
    var btn = document.getElementById('theme-toggle');
    if (btn) {
        btn.textContent = savedTheme === 'dark' ? '\u2600\uFE0F' : '\uD83C\uDF19';
    }
})();

document.getElementById('theme-toggle')?.addEventListener('click', function() {
    var current = document.documentElement.dataset.theme;
    var next = current === 'dark' ? 'light' : 'dark';
    document.documentElement.dataset.theme = next;
    localStorage.setItem('traceview-theme', next);
    this.textContent = next === 'dark' ? '\u2600\uFE0F' : '\uD83C\uDF19';
});
"#;

/// The JavaScript for SSE connection handling and UI interactions.
pub const SSE_SCRIPT: &'static str = r#"
(function() {
    // Copy to clipboard functionality
    document.addEventListener('click', function(e) {
        if (e.target.classList.contains('copy-btn')) {
            var targetId = e.target.dataset.copyTarget;
            var targetEl = document.getElementById(targetId);
            var content = targetEl ? targetEl.textContent : null;
            if (content) {
                navigator.clipboard.writeText(content).then(function() {
                    var original = e.target.textContent;
                    e.target.textContent = '\u2713';
                    setTimeout(function() { e.target.textContent = original; }, 1500);
                });
            }
        }
    });

    // Filter functionality for session detail page
    document.querySelectorAll('.filter-btn').forEach(function(btn) {
        btn.addEventListener('click', function() {
            var filter = this.dataset.filter;
            document.querySelectorAll('.span').forEach(function(span) {
                var kind = span.dataset.kind;
                var hasError = span.dataset.hasError === 'true';
                var show = true;
                if (filter === 'tools') {
                    show = kind === 'tool_call' || kind === 'tool_result';
                } else if (filter === 'thoughts') {
                    show = kind === 'thinking';
                } else if (filter === 'errors') {
                    show = hasError;
                }
                span.style.display = show ? '' : 'none';
            });
            document.querySelectorAll('.filter-btn').forEach(function(b) {
                b.classList.remove('active');
            });
            this.classList.add('active');
        });
    });

    // Session detail page - stream spans for this session
    const spansContainer = document.getElementById('spans-container');
    if (spansContainer) {
        const sessionId = spansContainer.dataset.sessionId;
        if (sessionId) {
            console.log('Connecting to SSE for session:', sessionId);
            const eventSource = new EventSource('/sessions/' + sessionId + '/stream');

            eventSource.addEventListener('span', function(event) {
                console.log('SSE span received:', event.data);
                try {
                    const data = JSON.parse(event.data);
                    if (data.html) {
                        // Remove empty state if present
                        const emptyState = spansContainer.querySelector('.empty-state');
                        if (emptyState) {
                            emptyState.remove();
                        }

                        const temp = document.createElement('div');
                        temp.innerHTML = data.html;
                        const newSpan = temp.firstChild;
                        if (newSpan) {
                            const existingSpan = document.querySelector('[data-span-id="' + data.id + '"]');
                            if (existingSpan) {
                                existingSpan.replaceWith(newSpan);
                            } else {
                                spansContainer.appendChild(newSpan);
                                newSpan.scrollIntoView({ behavior: 'smooth', block: 'end' });
                            }
                        }
                    }
                } catch (e) {
                    console.error('Error parsing SSE data:', e);
                }
            });

            eventSource.onopen = function() {
                console.log('SSE connection established for session:', sessionId);
            };

            eventSource.onerror = function(event) {
                console.error('SSE error, will auto-reconnect:', event);
            };

            window.addEventListener('beforeunload', function() {
                eventSource.close();
            });
        }
    }

    // Session list page - stream all spans to update session list
    const sessionList = document.getElementById('session-list');
    if (sessionList) {
        console.log('Connecting to SSE firehose for session list');
        const eventSource = new EventSource('/stream');

        // Track sessions we've seen to add new ones
        const knownSessions = new Set();
        sessionList.querySelectorAll('.session-item').forEach(function(item) {
            const link = item.querySelector('a');
            if (link) {
                const href = link.getAttribute('href');
                if (href) {
                    const match = href.match(/\/sessions\/(.+)$/);
                    if (match) knownSessions.add(match[1]);
                }
            }
        });

        eventSource.addEventListener('span', function(event) {
            try {
                const data = JSON.parse(event.data);
                if (data.session_id && !knownSessions.has(data.session_id)) {
                    console.log('New session detected:', data.session_id);
                    knownSessions.add(data.session_id);

                    // Remove empty state if present
                    const emptyState = sessionList.querySelector('.empty-state');
                    if (emptyState) {
                        emptyState.remove();
                    }

                    // Add new session to the list
                    const newItem = document.createElement('li');
                    newItem.className = 'session-item session-item-new';
                    newItem.innerHTML = '<a href="/sessions/' + data.session_id + '">' + data.session_id + '</a><span class="session-meta">Just now</span>';
                    sessionList.insertBefore(newItem, sessionList.firstChild);

                    // Flash animation
                    setTimeout(function() {
                        newItem.classList.remove('session-item-new');
                    }, 2000);
                }
            } catch (e) {
                console.error('Error parsing SSE data:', e);
            }
        });

        eventSource.onopen = function() {
            console.log('SSE firehose connected for session list');
        };

        eventSource.onerror = function(event) {
            console.error('SSE firehose error:', event);
        };

        window.addEventListener('beforeunload', function() {
            eventSource.close();
        });
    }
})();
"#;

/// The page around `content`: head with the escaped title, Pico.css, the
/// custom styles; a navigation bar with the theme toggle; the content; the
/// theme and live-update scripts.
pub open spec fn layout_markup(title: Seq<char>, content: Seq<char>) -> Seq<char> {
    "<!DOCTYPE html><html lang=\"en\" data-theme=\"light\"><head><meta charset=\"utf-8\"><meta name=\"viewport\" content=\"width=device-width, initial-scale=1\"><title>"@
        + html_escape(title)
        + " - Traceview</title><link rel=\"stylesheet\" href=\"https://cdn.jsdelivr.net/npm/@picocss/pico@2/css/pico.min.css\"><style>"@
        + MINIMAL_CSS@
        + "</style></head><body><nav class=\"container-fluid\"><ul><li><a href=\"/\"><strong>Traceview</strong></a></li></ul><ul><li><button id=\"theme-toggle\" class=\"outline contrast\" title=\"Toggle dark mode\">\u{1F319}</button></li></ul></nav><main class=\"container\">"@
        + content + "</main><script>"@ + THEME_SCRIPT@ + "</script><script>"@ + SSE_SCRIPT@
        + "</script></body></html>"@
}

/// Renders the base HTML layout wrapping the provided content.
///
/// # Arguments
/// * `title` - The page title (will be appended with " - Traceview")
/// * `content` - The main content markup to render
pub fn base_layout(title: &str, content: Markup) -> (m: Markup)
    ensures
        m@ == layout_markup(title@, content@),
{
    let mut out = String::new();
    out.append(
        "<!DOCTYPE html><html lang=\"en\" data-theme=\"light\"><head><meta charset=\"utf-8\"><meta name=\"viewport\" content=\"width=device-width, initial-scale=1\"><title>",
    );
    push_escaped(&mut out, title);
    out.append(
        " - Traceview</title><link rel=\"stylesheet\" href=\"https://cdn.jsdelivr.net/npm/@picocss/pico@2/css/pico.min.css\"><style>",
    );
    out.append(minimal_css());
    out.append(
        "</style></head><body><nav class=\"container-fluid\"><ul><li><a href=\"/\"><strong>Traceview</strong></a></li></ul><ul><li><button id=\"theme-toggle\" class=\"outline contrast\" title=\"Toggle dark mode\">\u{1F319}</button></li></ul></nav><main class=\"container\">",
    );
    out.append(content.as_str());
    out.append("</main><script>");
    out.append(theme_script());
    out.append("</script><script>");
    out.append(sse_script());
    out.append("</script></body></html>");
    assert(out@ =~= layout_markup(title@, content@));
    Markup::pre_escaped(out)
}

/// Minimal custom CSS to complement Pico.css
pub fn minimal_css() -> (s: &'static str)
    ensures
        s@ == MINIMAL_CSS@,
{
    MINIMAL_CSS
}

/// Returns the JavaScript for theme toggle functionality.
pub fn theme_script() -> (s: &'static str)
    ensures
        s@ == THEME_SCRIPT@,
{
    THEME_SCRIPT
}

/// Returns the JavaScript for SSE connection handling and UI interactions.
pub fn sse_script() -> (s: &'static str)
    ensures
        s@ == SSE_SCRIPT@,
{
    SSE_SCRIPT
}


/// The page names its title, escaped, in its `<title>` (followed by
/// " - Traceview"), and holds the content as it is, unescaped, right after
/// the opening of its `main` element and right before its closing.
pub proof fn lemma_layout_holds_content(title: Seq<char>, content: Seq<char>)
    ensures
        ("<!DOCTYPE html><html lang=\"en\" data-theme=\"light\"><head><meta charset=\"utf-8\"><meta name=\"viewport\" content=\"width=device-width, initial-scale=1\"><title>"@
            + html_escape(title)).is_prefix_of(layout_markup(title, content)),
        has_infix(
            layout_markup(title, content),
            "</style></head><body><nav class=\"container-fluid\"><ul><li><a href=\"/\"><strong>Traceview</strong></a></li></ul><ul><li><button id=\"theme-toggle\" class=\"outline contrast\" title=\"Toggle dark mode\">\u{1F319}</button></li></ul></nav><main class=\"container\">"@
                + content,
        ),
        has_infix(layout_markup(title, content), content + "</main><script>"@),
{
    let l0 = "<!DOCTYPE html><html lang=\"en\" data-theme=\"light\"><head><meta charset=\"utf-8\"><meta name=\"viewport\" content=\"width=device-width, initial-scale=1\"><title>"@;
    let et = html_escape(title);
    let l1 = " - Traceview</title><link rel=\"stylesheet\" href=\"https://cdn.jsdelivr.net/npm/@picocss/pico@2/css/pico.min.css\"><style>"@;
    let css = MINIMAL_CSS@;
    let l2 = "</style></head><body><nav class=\"container-fluid\"><ul><li><a href=\"/\"><strong>Traceview</strong></a></li></ul><ul><li><button id=\"theme-toggle\" class=\"outline contrast\" title=\"Toggle dark mode\">\u{1F319}</button></li></ul></nav><main class=\"container\">"@;
    let l3 = "</main><script>"@;
    let theme = THEME_SCRIPT@;
    let l4 = "</script><script>"@;
    let sse = SSE_SCRIPT@;
    let l5 = "</script></body></html>"@;
    let p = l0 + et;
    let q = p + l1 + css;
    let x = q + l2 + content + l3;
    // The title.
    assert(p.subrange(0, p.len() as int) =~= p);
    lemma_prefix_right(p, p, l1);
    lemma_prefix_right(p, p + l1, css);
    lemma_prefix_right(p, q, l2);
    lemma_prefix_right(p, q + l2, content);
    lemma_prefix_right(p, q + l2 + content, l3);
    lemma_layout_tail(x, theme, l4, sse, l5, p);
    // The content after the opening of `main`.
    let a = l2 + content;
    lemma_infix_refl(a);
    lemma_infix_left(q, a, a);
    lemma_add_assoc(q, l2, content);
    lemma_infix_right(q + l2 + content, l3, a);
    lemma_layout_tail(x, theme, l4, sse, l5, a);
    // The content before the closing of `main`.
    let c = content + l3;
    lemma_infix_refl(c);
    lemma_infix_left(q + l2, c, c);
    lemma_add_assoc(q + l2, content, l3);
    lemma_layout_tail(x, theme, l4, sse, l5, c);
}

proof fn lemma_layout_tail(
    x: Seq<char>,
    theme: Seq<char>,
    l4: Seq<char>,
    sse: Seq<char>,
    l5: Seq<char>,
    pat: Seq<char>,
)
    requires
        has_infix(x, pat) || pat.is_prefix_of(x),
    ensures
        has_infix(x + theme + l4 + sse + l5, pat) || pat.is_prefix_of(x + theme + l4 + sse + l5),
        pat.is_prefix_of(x) ==> pat.is_prefix_of(x + theme + l4 + sse + l5),
        has_infix(x, pat) ==> has_infix(x + theme + l4 + sse + l5, pat),
{
    if pat.is_prefix_of(x) {
        lemma_prefix_right(pat, x, theme);
        lemma_prefix_right(pat, x + theme, l4);
        lemma_prefix_right(pat, x + theme + l4, sse);
        lemma_prefix_right(pat, x + theme + l4 + sse, l5);
    }
    if has_infix(x, pat) {
        lemma_infix_right(x, theme, pat);
        lemma_infix_right(x + theme, l4, pat);
        lemma_infix_right(x + theme + l4, sse, pat);
        lemma_infix_right(x + theme + l4 + sse, l5, pat);
    }
}

} // verus!
