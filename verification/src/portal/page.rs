//! The streamed multi-tab config page: the page is assembled from a heading,
//! title, subtitle, nav and per-tab form/JS segments, as the list of chunks that
//! are written to the connection one after the other.
use vstd::prelude::*;
use crate::strs::{chars_of, push_char};
use crate::style::CONFIG_PAGE_CSS;
use crate::text::{char_is_alphanumeric, escape_html, escape_html_spec, escape_js_spec, escape_js_str, is_alphanumeric};

verus! {

/// Opening of the document, up to the `<title>` text.
pub const HTML_HEAD_OPEN: &'static str = "<!DOCTYPE html><html lang=\"en\"><head><meta charset=\"UTF-8\"><meta name=\"viewport\" content=\"width=device-width,initial-scale=1.0\"><title>";
/// Between the title and the stylesheet.
pub const HTML_HEAD_TITLE_STYLE: &'static str = "</title><style>";
/// Between the stylesheet and the heading.
pub const HTML_HEAD_AFTER_STYLE: &'static str = "</style></head><body><div class=\"container\"><header><h1>";
/// Between the heading and the subtitle.
pub const HTML_HEAD_AFTER_H1: &'static str = "</h1><p>";
/// Between the subtitle and the nav.
pub const HTML_SUBTITLE_NAV: &'static str = "</p></header><div class=\"nav\">";
/// After the nav: content area and flash message slot.
pub const HTML_CONTENT_OPEN: &'static str = "</div><div class=\"content\"><div id=\"message\" class=\"message\"></div>";
/// End of the document.
pub const HTML_SCRIPT_WRAPPER_END: &'static str = "</script></body></html>";
/// Separates the page body from the scripts, and the scripts from each other.
pub const HTML_SCRIPT_MIDDLE: &'static str = "</script><script>";
/// Opening of the tab bar.
pub const TABS_OPEN: &'static str = "<div class=\"config-tabs\">";
/// Closing `</div>`.
pub const DIV_CLOSE: &'static str = "</div>";
/// Start of a tab button, up to its class.
pub const TAB_BUTTON_OPEN: &'static str = "<button type=\"button\" class=\"";
/// Class of the tab that is active on load.
pub const TAB_CLASS_ACTIVE: &'static str = " config-tab active";
/// Class of the other tabs.
pub const TAB_CLASS: &'static str = " config-tab";
/// Between a tab button's class and its page id.
pub const TAB_BUTTON_PAGE: &'static str = "\" data-page=\"";
/// Between a tab button's page id and its label.
pub const TAB_BUTTON_LABEL: &'static str = "\">";
/// End of a tab button.
pub const TAB_BUTTON_CLOSE: &'static str = "</button>";
/// Start of a tab panel, up to its id.
pub const PANEL_OPEN: &'static str = "<div class=\"config-tab-panel\" id=\"panel-";
/// Closing quote of an attribute.
pub const QUOTE: &'static str = "\"";
/// Style that hides a panel that is not active on load.
pub const PANEL_HIDDEN: &'static str = " style=\"display:none\"";
/// End of an opening tag.
pub const TAG_END: &'static str = ">";
/// Start of a panel's loading overlay, up to its id.
pub const OVERLAY_OPEN: &'static str = "<div class=\"config-loading-overlay\" id=\"loading-";
/// Rest of a panel's loading overlay.
pub const OVERLAY_CLOSE: &'static str = "\"><span class=\"loading loading-overlay\"></span>Loading...</div>";
/// Start of a panel's form, up to its id.
pub const FORM_OPEN: &'static str = "<form id=\"configForm-";
/// End of the form opening tag.
pub const FORM_OPEN_END: &'static str = "\">";
/// The Reload and Save buttons, closing the form.
pub const FORM_BUTTONS: &'static str = "<div class=\"button-group\"><button type=\"button\" class=\"reloadBtn\">Reload</button><button type=\"submit\">Save Configuration</button></div></form>";
/// Start of the default-page script.
pub const DEFAULT_PAGE_OPEN: &'static str = "var defaultPage=\"";
/// Rest of the default-page script.
pub const DEFAULT_PAGE_CLOSE: &'static str = "\";window.addEventListener('load', function() { switchTab(defaultPage); });\n";

/// Tab switching, lazy loading and per-form save/reload for the streamed page.
pub const CONFIG_PAGE_TAB_SCRIPT: &'static str = "\nvar messageEl = document.getElementById('message');\nfunction showMessage(text, isError) {\n    if (!messageEl) return;\n    messageEl.textContent = text;\n    messageEl.className = 'message ' + (isError ? 'error' : 'success') + ' show';\n    setTimeout(function() { messageEl.classList.remove('show'); }, 5000);\n}\nvar loaded = {};\nfunction switchTab(page) {\n    document.querySelectorAll('.config-tab').forEach(function(b) { b.classList.remove('active'); });\n    document.querySelectorAll('.config-tab-panel').forEach(function(p) { p.style.display = 'none'; });\n    var btn = document.querySelector('.config-tab[data-page=\"' + page + '\"]');\n    if (btn) btn.classList.add('active');\n    var panel = document.getElementById('panel-' + page);\n    if (panel) panel.style.display = '';\n    if (!loaded[page]) {\n        loaded[page] = true;\n        var loadFn = window['loadConfig_' + page];\n        if (loadFn) {\n            loadFn().then(function() {\n                panel.classList.add('loaded');\n                panel.querySelectorAll('input,button').forEach(function(el) { el.disabled = false; });\n                showMessage('Configuration loaded');\n            }).catch(function(err) {\n                var ov = document.getElementById('loading-' + page);\n                if (ov) ov.textContent = 'Load failed: ' + err.message;\n                var rb = panel.querySelector('.reloadBtn');\n                if (rb) rb.disabled = false;\n            });\n        }\n    }\n}\ndocument.querySelectorAll('.config-tab').forEach(function(btn) {\n    btn.addEventListener('click', function() { switchTab(this.dataset.page); });\n});\ndocument.querySelectorAll('.config-tab-panel').forEach(function(panel) {\n    panel.querySelectorAll('input,button').forEach(function(el) { el.disabled = true; });\n});\ndocument.querySelectorAll('.config-tab-panel form').forEach(function(form) {\n    form.addEventListener('submit', function(e) {\n        e.preventDefault();\n        var page = this.id.replace('configForm-', '');\n        var saveFn = window['saveConfig_' + page];\n        if (saveFn) saveFn().then(function() { showMessage('Configuration saved'); })\n            .catch(function(err) { showMessage('Save failed: ' + err.message, true); });\n    });\n    var rb = form.querySelector('.reloadBtn');\n    if (rb) rb.addEventListener('click', function() {\n        var page = this.closest('form').id.replace('configForm-', '');\n        var loadFn = window['loadConfig_' + page];\n        if (loadFn) loadFn().then(function() { showMessage('Configuration loaded'); })\n            .catch(function(e) { showMessage('Load failed: ' + e.message, true); });\n    });\n});\n";

/// One character of a page id: alphanumeric characters and `_` stay, every
/// other character becomes `_`.
pub open spec fn page_id_char(c: char) -> char {
    if char_is_alphanumeric(c) || c == '_' {
        c
    } else {
        '_'
    }
}

/// The page id of a page name.
pub open spec fn page_to_id_spec(page: Seq<char>) -> Seq<char> {
    Seq::new(page.len(), |i: int| page_id_char(page[i]))
}

/// Converts page name to a valid JS/HTML id suffix. Matches
/// [`crate::text::page_name_to_js_id`] on every name (see
/// `crate::laws::law_page_ids_agree`).
pub fn page_to_id(page: &str) -> (r: String)
    ensures
        r@ == page_to_id_spec(page@),
{
    let cs = chars_of(page);
    let mut out = String::new();
    let mut i: usize = 0;
    while i < cs.len()
        invariant
            i <= cs.len(),
            out@ == page_to_id_spec(cs@.take(i as int)),
        decreases cs.len() - i,
    {
        let c = cs[i];
        if is_alphanumeric(c) || c == '_' {
            push_char(&mut out, c);
        } else {
            push_char(&mut out, '_');
        }
        proof {
            assert(out@ =~= page_to_id_spec(cs@.take(i + 1)));
        }
        i = i + 1;
    }
    proof {
        assert(cs@.take(cs@.len() as int) =~= cs@);
    }
    out
}

/// One tab page: name (display + id), HTML segments, JS segments.
pub struct PageTab {
    /// Display name for the tab label.
    pub name: &'static str,
    /// HTML form body segments.
    pub html_segments: &'static [&'static str],
    /// JS segments (loadConfig_<page>, saveConfig_<page>).
    pub js_segments: &'static [&'static str],
}

/// Full config page as streamable chunks (multi-tab support).
///
/// When `pages.len() > 1`, renders a tab bar and one panel per page with lazy-loaded data.
/// Single-page configs (e.g. only "main") render without a tab bar.
pub struct ConfigPageChunks {
    /// Page heading (e.g. `<h1>` content).
    pub page_heading: &'static str,
    /// Document title.
    pub title: &'static str,
    /// Subtitle under the heading.
    pub subtitle: &'static str,
    /// Left nav HTML.
    pub nav_left: &'static str,
    /// Right nav HTML.
    pub nav_right: &'static str,
    /// Extra CSS appended after the built-in stylesheet.
    pub extra_css: &'static str,
    /// Tab pages. Single page = no tab bar.
    pub pages: Vec<PageTab>,
    /// Default page id (from page_to_id) to activate on load.
    pub default_page_id: String,
}

/// The views of a slice of string segments.
pub open spec fn segs_view(segs: Seq<&'static str>) -> Seq<Seq<char>> {
    segs.map_values(|s: &'static str| s@)
}

/// The tab bar button of one page.
pub open spec fn tab_button_spec(name: Seq<char>, default_id: Seq<char>) -> Seq<char> {
    let id = page_to_id_spec(name);
    TAB_BUTTON_OPEN@ + (if id == default_id {
        TAB_CLASS_ACTIVE@
    } else {
        TAB_CLASS@
    }) + TAB_BUTTON_PAGE@ + id + TAB_BUTTON_LABEL@ + escape_html_spec(name) + TAB_BUTTON_CLOSE@
}

/// The tab bar buttons of the given pages, in order.
pub open spec fn tab_buttons_spec(pages: Seq<PageTab>, default_id: Seq<char>) -> Seq<char>
    decreases pages.len(),
{
    if pages.len() == 0 {
        Seq::empty()
    } else {
        tab_buttons_spec(pages.drop_last(), default_id) + tab_button_spec(
            pages.last().name@,
            default_id,
        )
    }
}

/// The chunks of one tab panel: panel, overlay and form opening, the form body
/// segments, the buttons and the closing `</div>`.
pub open spec fn panel_chunks_spec(tab: PageTab, default_id: Seq<char>) -> Seq<Seq<char>> {
    let id = page_to_id_spec(tab.name@);
    seq![
        PANEL_OPEN@ + id + QUOTE@ + (if id == default_id {
            Seq::empty()
        } else {
            PANEL_HIDDEN@
        }) + TAG_END@,
        OVERLAY_OPEN@ + id + OVERLAY_CLOSE@,
        FORM_OPEN@ + id + FORM_OPEN_END@,
    ] + segs_view(tab.html_segments@) + seq![FORM_BUTTONS@, DIV_CLOSE@]
}

/// The panel chunks of all pages, in order.
pub open spec fn panels_chunks_spec(pages: Seq<PageTab>, default_id: Seq<char>) -> Seq<Seq<char>>
    decreases pages.len(),
{
    if pages.len() == 0 {
        Seq::empty()
    } else {
        panels_chunks_spec(pages.drop_last(), default_id) + panel_chunks_spec(
            pages.last(),
            default_id,
        )
    }
}

/// The JS segments of all pages, in order.
pub open spec fn js_chunks_spec(pages: Seq<PageTab>) -> Seq<Seq<char>>
    decreases pages.len(),
{
    if pages.len() == 0 {
        Seq::empty()
    } else {
        js_chunks_spec(pages.drop_last()) + segs_view(pages.last().js_segments@)
    }
}

impl ConfigPageChunks {
    /// The chunks of the page, in the order they are written.
    pub open spec fn chunks_spec(&self) -> Seq<Seq<char>> {
        let head = seq![
            HTML_HEAD_OPEN@,
            self.title@,
            HTML_HEAD_TITLE_STYLE@,
            CONFIG_PAGE_CSS@,
            self.extra_css@,
            HTML_HEAD_AFTER_STYLE@,
            self.page_heading@,
            HTML_HEAD_AFTER_H1@,
            self.subtitle@,
            HTML_SUBTITLE_NAV@,
            self.nav_left@,
            self.nav_right@,
            HTML_CONTENT_OPEN@,
        ];
        let tabs = if self.pages@.len() > 1 {
            seq![TABS_OPEN@ + tab_buttons_spec(self.pages@, self.default_page_id@) + DIV_CLOSE@]
        } else {
            Seq::empty()
        };
        head + tabs + panels_chunks_spec(self.pages@, self.default_page_id@) + seq![
            HTML_SCRIPT_MIDDLE@,
        ] + js_chunks_spec(self.pages@) + seq![
            HTML_SCRIPT_MIDDLE@,
            CONFIG_PAGE_TAB_SCRIPT@,
            DEFAULT_PAGE_OPEN@ + escape_js_spec(self.default_page_id@) + DEFAULT_PAGE_CLOSE@,
            HTML_SCRIPT_WRAPPER_END@,
        ]
    }

    /// The page as the list of chunks that are written to the connection, in
    /// order. The streaming response sends exactly these after a `200` with
    /// `text/html` content type.
    pub fn chunks(&self) -> (r: Vec<String>)
        ensures
            r@.map_values(|s: String| s@) == self.chunks_spec(),
    {
        let mut out: Vec<String> = Vec::new();
        let ghost mut acc: Seq<Seq<char>> = Seq::empty();
        proof {
            assert(out@.map_values(|x: String| x@) =~= acc);
        }
        push_chunk(&mut out, Ghost(acc), HTML_HEAD_OPEN.to_owned());
        proof { acc = acc.push(HTML_HEAD_OPEN@); }
        push_chunk(&mut out, Ghost(acc), self.title.to_owned());
        proof { acc = acc.push(self.title@); }
        push_chunk(&mut out, Ghost(acc), HTML_HEAD_TITLE_STYLE.to_owned());
        proof { acc = acc.push(HTML_HEAD_TITLE_STYLE@); }
        push_chunk(&mut out, Ghost(acc), CONFIG_PAGE_CSS.to_owned());
        proof { acc = acc.push(CONFIG_PAGE_CSS@); }
        push_chunk(&mut out, Ghost(acc), self.extra_css.to_owned());
        proof { acc = acc.push(self.extra_css@); }
        push_chunk(&mut out, Ghost(acc), HTML_HEAD_AFTER_STYLE.to_owned());
        proof { acc = acc.push(HTML_HEAD_AFTER_STYLE@); }
        push_chunk(&mut out, Ghost(acc), self.page_heading.to_owned());
        proof { acc = acc.push(self.page_heading@); }
        push_chunk(&mut out, Ghost(acc), HTML_HEAD_AFTER_H1.to_owned());
        proof { acc = acc.push(HTML_HEAD_AFTER_H1@); }
        push_chunk(&mut out, Ghost(acc), self.subtitle.to_owned());
        proof { acc = acc.push(self.subtitle@); }
        push_chunk(&mut out, Ghost(acc), HTML_SUBTITLE_NAV.to_owned());
        proof { acc = acc.push(HTML_SUBTITLE_NAV@); }
        push_chunk(&mut out, Ghost(acc), self.nav_left.to_owned());
        proof { acc = acc.push(self.nav_left@); }
        push_chunk(&mut out, Ghost(acc), self.nav_right.to_owned());
        proof { acc = acc.push(self.nav_right@); }
        push_chunk(&mut out, Ghost(acc), HTML_CONTENT_OPEN.to_owned());
        proof { acc = acc.push(HTML_CONTENT_OPEN@); }
        let ghost head = acc;
        if self.pages.len() > 1 {
            let bar = self.tab_bar();
            push_chunk(&mut out, Ghost(acc), bar);
            proof {
                acc = acc.push(TABS_OPEN@ + tab_buttons_spec(self.pages@, self.default_page_id@) + DIV_CLOSE@);
            }
        }
        let ghost with_tabs = acc;
        let mut i: usize = 0;
        while i < self.pages.len()
            invariant
                i <= self.pages.len(),
                out@.map_values(|s: String| s@) == with_tabs + panels_chunks_spec(
                    self.pages@.take(i as int),
                    self.default_page_id@,
                ),
            decreases self.pages.len() - i,
        {
            proof {
                assert(self.pages@.take(i + 1).drop_last() =~= self.pages@.take(i as int));
            }
            self.push_panel(&mut out, i);
            proof {
                assert(with_tabs + panels_chunks_spec(self.pages@.take(i + 1), self.default_page_id@)
                    =~= with_tabs + panels_chunks_spec(self.pages@.take(i as int), self.default_page_id@)
                    + panel_chunks_spec(self.pages@[i as int], self.default_page_id@));
            }
            i = i + 1;
        }
        proof {
            assert(self.pages@.take(self.pages@.len() as int) =~= self.pages@);
            acc = out@.map_values(|s: String| s@);
        }
        push_chunk(&mut out, Ghost(acc), HTML_SCRIPT_MIDDLE.to_owned());
        proof { acc = acc.push(HTML_SCRIPT_MIDDLE@); }
        let ghost with_mid = acc;
        let mut k: usize = 0;
        while k < self.pages.len()
            invariant
                k <= self.pages.len(),
                out@.map_values(|s: String| s@) == with_mid + js_chunks_spec(self.pages@.take(k as int)),
            decreases self.pages.len() - k,
        {
            proof {
                assert(self.pages@.take(k + 1).drop_last() =~= self.pages@.take(k as int));
            }
            let segs = self.pages[k].js_segments;
            let ghost before = out@.map_values(|s: String| s@);
            push_segments(&mut out, segs);
            proof {
                assert(with_mid + js_chunks_spec(self.pages@.take(k + 1)) =~= before + segs_view(
                    segs@,
                ));
            }
            k = k + 1;
        }
        proof {
            acc = out@.map_values(|s: String| s@);
        }
        push_chunk(&mut out, Ghost(acc), HTML_SCRIPT_MIDDLE.to_owned());
        proof { acc = acc.push(HTML_SCRIPT_MIDDLE@); }
        push_chunk(&mut out, Ghost(acc), CONFIG_PAGE_TAB_SCRIPT.to_owned());
        proof { acc = acc.push(CONFIG_PAGE_TAB_SCRIPT@); }
        let mut script = DEFAULT_PAGE_OPEN.to_owned();
        let esc = escape_js_str(self.default_page_id.as_str());
        script.append(esc.as_str());
        script.append(DEFAULT_PAGE_CLOSE);
        push_chunk(&mut out, Ghost(acc), script);
        proof {
            acc = acc.push(DEFAULT_PAGE_OPEN@ + escape_js_spec(self.default_page_id@) + DEFAULT_PAGE_CLOSE@);
        }
        push_chunk(&mut out, Ghost(acc), HTML_SCRIPT_WRAPPER_END.to_owned());
        proof {
            acc = acc.push(HTML_SCRIPT_WRAPPER_END@);
            assert(self.pages@.take(self.pages@.len() as int) =~= self.pages@);
            assert(out@.map_values(|s: String| s@) =~= self.chunks_spec());
        }
        out
    }

    /// The tab bar: one button per page, the default page marked active.
    fn tab_bar(&self) -> (r: String)
        ensures
            r@ == TABS_OPEN@ + tab_buttons_spec(self.pages@, self.default_page_id@) + DIV_CLOSE@,
    {
        let mut s = TABS_OPEN.to_owned();
        let mut i: usize = 0;
        while i < self.pages.len()
            invariant
                i <= self.pages.len(),
                s@ == TABS_OPEN@ + tab_buttons_spec(self.pages@.take(i as int), self.default_page_id@),
            decreases self.pages.len() - i,
        {
            proof {
                assert(self.pages@.take(i + 1).drop_last() =~= self.pages@.take(i as int));
            }
            let name = self.pages[i].name;
            let id = page_to_id(name);
            s.append(TAB_BUTTON_OPEN);
            if crate::strs::str_eq(id.as_str(), self.default_page_id.as_str()) {
                s.append(TAB_CLASS_ACTIVE);
            } else {
                s.append(TAB_CLASS);
            }
            s.append(TAB_BUTTON_PAGE);
            s.append(id.as_str());
            s.append(TAB_BUTTON_LABEL);
            let label = escape_html(name);
            s.append(label.as_str());
            s.append(TAB_BUTTON_CLOSE);
            proof {
                assert(s@ =~= TABS_OPEN@ + tab_buttons_spec(self.pages@.take(i + 1), self.default_page_id@));
            }
            i = i + 1;
        }
        proof {
            assert(self.pages@.take(self.pages@.len() as int) =~= self.pages@);
        }
        s.append(DIV_CLOSE);
        s
    }

    /// Pushes the chunks of the panel of page `i`.
    fn push_panel(&self, out: &mut Vec<String>, i: usize)
        requires
            i < self.pages.len(),
        ensures
            final(out)@.map_values(|s: String| s@) == old(out)@.map_values(|s: String| s@)
                + panel_chunks_spec(self.pages@[i as int], self.default_page_id@),
    {
        let tab = &self.pages[i];
        let id = page_to_id(tab.name);
        let ghost start = out@.map_values(|s: String| s@);
        let mut panel = PANEL_OPEN.to_owned();
        panel.append(id.as_str());
        panel.append(QUOTE);
        if !crate::strs::str_eq(id.as_str(), self.default_page_id.as_str()) {
            panel.append(PANEL_HIDDEN);
        }
        panel.append(TAG_END);
        let ghost p0 = panel@;
        push_chunk(out, Ghost(start), panel);
        let mut overlay = OVERLAY_OPEN.to_owned();
        overlay.append(id.as_str());
        overlay.append(OVERLAY_CLOSE);
        let ghost p1 = overlay@;
        push_chunk(out, Ghost(start.push(p0)), overlay);
        let mut form = FORM_OPEN.to_owned();
        form.append(id.as_str());
        form.append(FORM_OPEN_END);
        let ghost p2 = form@;
        push_chunk(out, Ghost(start.push(p0).push(p1)), form);
        let ghost mid = out@.map_values(|s: String| s@);
        push_segments(out, tab.html_segments);
        let ghost after = out@.map_values(|s: String| s@);
        push_chunk(out, Ghost(after), FORM_BUTTONS.to_owned());
        push_chunk(out, Ghost(after.push(FORM_BUTTONS@)), DIV_CLOSE.to_owned());
        proof {
            let id_s = page_to_id_spec(tab.name@);
            assert(p0 =~= PANEL_OPEN@ + id_s + QUOTE@ + (if id_s == self.default_page_id@ {
                Seq::empty()
            } else {
                PANEL_HIDDEN@
            }) + TAG_END@);
            assert(out@.map_values(|s: String| s@) =~= start + panel_chunks_spec(
                self.pages@[i as int],
                self.default_page_id@,
            ));
        }
    }
}

/// Pushes one chunk, keeping track of the chunk views.
fn push_chunk(out: &mut Vec<String>, Ghost(acc): Ghost<Seq<Seq<char>>>, s: String)
    requires
        old(out)@.map_values(|x: String| x@) == acc,
    ensures
        final(out)@.map_values(|x: String| x@) == acc.push(s@),
{
    let ghost before = out@;
    out.push(s);
    proof {
        assert(out@.map_values(|x: String| x@) =~= before.map_values(|x: String| x@).push(s@));
    }
}

/// Pushes every segment of a slice, in order.
fn push_segments(out: &mut Vec<String>, segs: &'static [&'static str])
    ensures
        final(out)@.map_values(|x: String| x@) == old(out)@.map_values(|x: String| x@) + segs_view(
            segs@,
        ),
{
    let ghost start = out@.map_values(|x: String| x@);
    let mut j: usize = 0;
    while j < segs.len()
        invariant
            j <= segs@.len(),
            out@.map_values(|x: String| x@) == start + segs_view(segs@.take(j as int)),
        decreases segs@.len() - j,
    {
        let ghost acc = out@.map_values(|x: String| x@);
        push_chunk(out, Ghost(acc), segs[j].to_owned());
        proof {
            assert(segs_view(segs@.take(j + 1)) =~= segs_view(segs@.take(j as int)).push(segs@[j as int]@));
        }
        j = j + 1;
    }
    proof {
        assert(segs@.take(segs@.len() as int) =~= segs@);
    }
}

} // verus!
