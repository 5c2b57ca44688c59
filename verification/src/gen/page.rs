//! Assembly of the whole config document from its pages: head, tab bar, one
//! panel per page, the per-page scripts and the tab script.
use vstd::prelude::*;
use crate::gen::form::{
    gen_html_string, gen_js_string, html_string_spec, js_string_spec, prepend, FormField,
};
use crate::strs::str_eq;
use crate::style::{CONFIG_PAGE_CSS, CONFIG_PAGE_TAB_SCRIPT};
use crate::text::{
    escape_html, escape_html_spec, escape_js_spec, escape_js_str, js_id_spec, page_name_to_js_id,
};

verus! {

/// Page chrome from `#[config_ui(...)]`.
pub struct UiAttrs {
    /// The `<h1>` text.
    pub page_heading: String,
    /// The `<title>` text.
    pub title: String,
    /// The paragraph under the heading.
    pub subtitle: String,
    /// Raw HTML on the left of the nav bar.
    pub nav_left: String,
    /// Raw HTML on the right of the nav bar.
    pub nav_right: String,
    /// CSS appended after the built-in stylesheet.
    pub extra_css: String,
    /// The page shown first; the first page when `None`.
    pub default_group: Option<String>,
}

/// One tab of the document: a page name and its fields, in declaration order.
pub struct FormPage {
    /// The page (config group) name.
    pub name: String,
    /// The fields shown on the page.
    pub fields: Vec<FormField>,
}

/// A page as its name and fields.
pub open spec fn page_view(p: FormPage) -> (Seq<char>, Seq<FormField>) {
    (p.name@, p.fields@)
}

/// The pages as names and fields.
pub open spec fn pages_view(pages: Seq<FormPage>) -> Seq<(Seq<char>, Seq<FormField>)> {
    pages.map_values(|p: FormPage| page_view(p))
}

/// Document start, up to the title text.
pub const HEAD_OPEN: &'static str = "<!DOCTYPE html><html lang=\"en\"><head><meta charset=\"UTF-8\"><meta name=\"viewport\" content=\"width=device-width,initial-scale=1.0\"><title>";
/// After the title, before the stylesheet.
pub const TITLE_CLOSE: &'static str = "</title><style>";
/// After the stylesheet, up to the heading text.
pub const STYLE_CLOSE: &'static str = "</style></head><body><div class=\"container\"><header><h1>";
/// After the heading, before the subtitle.
pub const HEADING_CLOSE: &'static str = "</h1><p>";
/// After the subtitle, before the nav bar content.
pub const HEADER_CLOSE: &'static str = "</p></header><div class=\"nav\">";
/// After the nav bar, the content area and its message box.
pub const NAV_CLOSE: &'static str = "</div><div class=\"content\"><div id=\"message\" class=\"message\"></div>";
/// Start of the tab bar.
pub const TABS_OPEN: &'static str = "<div class=\"config-tabs\">";
/// Start of the tab button of the page shown first.
pub const TAB_ACTIVE: &'static str = "<button type=\"button\" class=\"config-tab active\" data-page=\"";
/// Start of the tab button of another page.
pub const TAB_INACTIVE: &'static str = "<button type=\"button\" class=\"config-tab\" data-page=\"";
/// Between a tab's page id and its label.
pub const TAB_LABEL: &'static str = "\">";
/// End of a tab button.
pub const TAB_CLOSE: &'static str = "</button>";
/// End of the tab bar, of a panel and of a form body.
pub const DIV_CLOSE: &'static str = "</div>";
/// Start of a page panel, before its id.
pub const PANEL_OPEN: &'static str = "<div class=\"config-tab-panel\" id=\"panel-";
/// Closes an attribute value.
pub const QUOTE: &'static str = "\"";
/// Hides a panel other than the one shown first.
pub const DISPLAY_NONE: &'static str = " style=\"display:none\"";
/// After the panel's attributes, the start of its loading overlay.
pub const LOADING_OPEN: &'static str = "><div class=\"config-loading-overlay\" id=\"loading-";
/// After the loading overlay's id, up to the form's id.
pub const LOADING_CLOSE: &'static str = "\"><span class=\"loading loading-overlay\"></span>Loading...</div><form id=\"configForm-";
/// End of the form's start tag.
pub const FORM_OPEN_END: &'static str = "\">";
/// The form's buttons and the end of the form and of the panel.
pub const PANEL_BUTTONS: &'static str = "<div class=\"button-group\"><button type=\"button\" class=\"reloadBtn\">Reload</button><button type=\"submit\">Save Configuration</button></div></form></div>";
/// After the panels: the end of the content and the start of the page scripts.
pub const BODY_CLOSE: &'static str = "</div></div><script>";
/// Between the page scripts and the tab script.
pub const SCRIPT_BETWEEN: &'static str = "</script><script>";
/// Before the id of the page shown first.
pub const DEFAULT_PAGE_OPEN: &'static str = "var defaultPage=\"";
/// After the id of the page shown first: its activation and the document end.
pub const DEFAULT_PAGE_CLOSE: &'static str = "\";window.addEventListener('load', function() { switchTab(defaultPage); });</script></body></html>";

/// The name of the page shown first: `default_group`, else the first page,
/// else `main`.
pub open spec fn default_page_name(ui: UiAttrs, pages: Seq<(Seq<char>, Seq<FormField>)>) -> Seq<char> {
    match ui.default_group {
        Some(g) => g@,
        None => if pages.len() > 0 {
            pages[0].0
        } else {
            "main"@
        },
    }
}

/// The id of the page shown first.
pub open spec fn default_page_id(ui: UiAttrs, pages: Seq<(Seq<char>, Seq<FormField>)>) -> Seq<char> {
    js_id_spec(default_page_name(ui, pages))
}

/// Everything before the tab bar.
pub open spec fn head_spec(ui: UiAttrs) -> Seq<char> {
    HEAD_OPEN@ + escape_html_spec(ui.title@) + TITLE_CLOSE@ + CONFIG_PAGE_CSS@ + ui.extra_css@
        + STYLE_CLOSE@ + escape_html_spec(ui.page_heading@) + HEADING_CLOSE@ + escape_html_spec(
        ui.subtitle@,
    ) + HEADER_CLOSE@ + ui.nav_left@ + ui.nav_right@ + NAV_CLOSE@
}

/// The tab button of one page; active when its id is `def`.
pub open spec fn tab_spec(p: (Seq<char>, Seq<FormField>), def: Seq<char>) -> Seq<char> {
    let id = js_id_spec(p.0);
    (if id == def {
        TAB_ACTIVE@
    } else {
        TAB_INACTIVE@
    }) + id + TAB_LABEL@ + escape_html_spec(p.0) + TAB_CLOSE@
}

/// The tab buttons of the pages, in order.
pub open spec fn tabs_spec(pages: Seq<(Seq<char>, Seq<FormField>)>, def: Seq<char>) -> Seq<char>
    decreases pages.len(),
{
    if pages.len() == 0 {
        Seq::empty()
    } else {
        tabs_spec(pages.drop_last(), def) + tab_spec(pages.last(), def)
    }
}

/// The tab bar: only when there is more than one page.
pub open spec fn tab_bar_spec(pages: Seq<(Seq<char>, Seq<FormField>)>, def: Seq<char>) -> Seq<char> {
    if pages.len() > 1 {
        TABS_OPEN@ + tabs_spec(pages, def) + DIV_CLOSE@
    } else {
        Seq::empty()
    }
}

/// The panel of one page (hidden unless its id is `def`), or the error of its form.
pub open spec fn panel_spec(p: (Seq<char>, Seq<FormField>), def: Seq<char>) -> Result<Seq<char>, Seq<char>> {
    let id = js_id_spec(p.0);
    match html_string_spec(p.1) {
        Err(e) => Err(e),
        Ok(h) => Ok(
            PANEL_OPEN@ + id + QUOTE@ + (if id == def {
                Seq::empty()
            } else {
                DISPLAY_NONE@
            }) + LOADING_OPEN@ + id + LOADING_CLOSE@ + id + FORM_OPEN_END@ + h + PANEL_BUTTONS@,
        ),
    }
}

/// The panels of the pages in order, or the first error.
pub open spec fn panels_spec(pages: Seq<(Seq<char>, Seq<FormField>)>, def: Seq<char>) -> Result<Seq<char>, Seq<char>>
    decreases pages.len(),
{
    if pages.len() == 0 {
        Ok(Seq::empty())
    } else {
        match panel_spec(pages[0], def) {
            Err(e) => Err(e),
            Ok(h) => prepend(h, panels_spec(pages.skip(1), def)),
        }
    }
}

/// The load/save scripts of the pages in order, or the first error.
pub open spec fn scripts_spec(pages: Seq<(Seq<char>, Seq<FormField>)>) -> Result<Seq<char>, Seq<char>>
    decreases pages.len(),
{
    if pages.len() == 0 {
        Ok(Seq::empty())
    } else {
        match js_string_spec(pages[0].0, pages[0].1) {
            Err(e) => Err(e),
            Ok(s) => prepend(s, scripts_spec(pages.skip(1))),
        }
    }
}

/// The whole document, or the first error of a page's form (all panels are
/// built before the scripts).
pub open spec fn full_page_spec(ui: UiAttrs, pages: Seq<(Seq<char>, Seq<FormField>)>) -> Result<Seq<char>, Seq<char>> {
    let def = default_page_id(ui, pages);
    match panels_spec(pages, def) {
        Err(e) => Err(e),
        Ok(panels) => match scripts_spec(pages) {
            Err(e) => Err(e),
            Ok(js) => Ok(
                head_spec(ui) + tab_bar_spec(pages, def) + panels + BODY_CLOSE@ + js
                    + SCRIPT_BETWEEN@ + CONFIG_PAGE_TAB_SCRIPT@ + DEFAULT_PAGE_OPEN@
                    + escape_js_spec(def) + DEFAULT_PAGE_CLOSE@,
            ),
        },
    }
}

/// Appends the head of the document.
fn push_head(out: &mut String, ui: &UiAttrs)
    ensures
        final(out)@ == old(out)@ + head_spec(*ui),
{
    let title = escape_html(ui.title.as_str());
    let heading = escape_html(ui.page_heading.as_str());
    let subtitle = escape_html(ui.subtitle.as_str());
    out.append(HEAD_OPEN);
    out.append(title.as_str());
    out.append(TITLE_CLOSE);
    out.append(CONFIG_PAGE_CSS);
    out.append(ui.extra_css.as_str());
    out.append(STYLE_CLOSE);
    out.append(heading.as_str());
    out.append(HEADING_CLOSE);
    out.append(subtitle.as_str());
    out.append(HEADER_CLOSE);
    out.append(ui.nav_left.as_str());
    out.append(ui.nav_right.as_str());
    out.append(NAV_CLOSE);
    proof {
        assert(final(out)@ =~= old(out)@ + head_spec(*ui));
    }
}

/// Appends the tab buttons of the pages.
fn push_tabs(out: &mut String, pages: &Vec<FormPage>, def: &str)
    ensures
        final(out)@ == old(out)@ + tabs_spec(pages_view(pages@), def@),
{
    let ghost start = out@;
    let mut i: usize = 0;
    while i < pages.len()
        invariant
            i <= pages.len(),
            out@ == start + tabs_spec(pages_view(pages@).take(i as int), def@),
        decreases pages.len() - i,
    {
        proof {
            assert(pages_view(pages@).take(i + 1).drop_last() =~= pages_view(pages@).take(i as int));
        }
        let p = &pages[i];
        let id = page_name_to_js_id(p.name.as_str());
        let label = escape_html(p.name.as_str());
        if str_eq(id.as_str(), def) {
            out.append(TAB_ACTIVE);
        } else {
            out.append(TAB_INACTIVE);
        }
        out.append(id.as_str());
        out.append(TAB_LABEL);
        out.append(label.as_str());
        out.append(TAB_CLOSE);
        proof {
            assert(out@ =~= start + tabs_spec(pages_view(pages@).take(i + 1), def@));
        }
        i = i + 1;
    }
    proof {
        assert(pages_view(pages@).take(pages@.len() as int) =~= pages_view(pages@));
    }
}

/// Appends the panel of one page, or gives the error of its form.
fn push_panel(out: &mut String, p: &FormPage, def: &str) -> (r: Result<(), String>)
    ensures
        match panel_spec(page_view(*p), def@) {
            Ok(h) => r is Ok && final(out)@ == old(out)@ + h,
            Err(e) => r matches Err(m) && m@ == e,
        },
{
    let body = match gen_html_string(&p.fields) {
        Ok(b) => b,
        Err(e) => {
            return Err(e);
        },
    };
    let id = page_name_to_js_id(p.name.as_str());
    out.append(PANEL_OPEN);
    out.append(id.as_str());
    out.append(QUOTE);
    if !str_eq(id.as_str(), def) {
        out.append(DISPLAY_NONE);
    }
    out.append(LOADING_OPEN);
    out.append(id.as_str());
    out.append(LOADING_CLOSE);
    out.append(id.as_str());
    out.append(FORM_OPEN_END);
    out.append(body.as_str());
    out.append(PANEL_BUTTONS);
    proof {
        assert(final(out)@ =~= old(out)@ + panel_spec(page_view(*p), def@)->Ok_0);
    }
    Ok(())
}

/// Appends the panels of the pages, or gives the first error.
fn push_panels(out: &mut String, pages: &Vec<FormPage>, def: &str) -> (r: Result<(), String>)
    ensures
        match panels_spec(pages_view(pages@), def@) {
            Ok(h) => r is Ok && final(out)@ == old(out)@ + h,
            Err(e) => r matches Err(m) && m@ == e,
        },
{
    let ghost start = out@;
    let mut i: usize = 0;
    proof {
        assert(pages_view(pages@).skip(0) =~= pages_view(pages@));
        assert(start + Seq::<char>::empty() =~= start);
    }
    while i < pages.len()
        invariant
            i <= pages.len(),
            out@.len() >= start.len(),
            out@.subrange(0, start.len() as int) == start,
            panels_spec(pages_view(pages@), def@) == prepend(
                out@.subrange(start.len() as int, out@.len() as int),
                panels_spec(pages_view(pages@).skip(i as int), def@),
            ),
        decreases pages.len() - i,
    {
        let p = &pages[i];
        let ghost rest = pages_view(pages@).skip(i as int);
        let ghost before = out@;
        proof {
            assert(rest[0] == page_view(*p));
            assert(rest.skip(1) =~= pages_view(pages@).skip(i + 1));
        }
        match push_panel(out, p, def) {
            Ok(()) => {},
            Err(e) => {
                return Err(e);
            },
        }
        proof {
            let item = panel_spec(page_view(*p), def@)->Ok_0;
            let done = before.subrange(start.len() as int, before.len() as int);
            assert(out@.subrange(0, start.len() as int) =~= start);
            assert(out@.subrange(start.len() as int, out@.len() as int) =~= done + item);
            assert forall|b2: Seq<char>| done + (item + b2) =~= (done + item) + b2 by {}
        }
        i = i + 1;
    }
    proof {
        assert(pages_view(pages@).skip(pages@.len() as int) =~= Seq::<(Seq<char>, Seq<FormField>)>::empty());
        let done = out@.subrange(start.len() as int, out@.len() as int);
        assert(done + Seq::<char>::empty() =~= done);
        assert(out@ =~= start + done);
    }
    Ok(())
}

/// Appends the load/save scripts of the pages, or gives the first error.
fn push_scripts(out: &mut String, pages: &Vec<FormPage>) -> (r: Result<(), String>)
    ensures
        match scripts_spec(pages_view(pages@)) {
            Ok(h) => r is Ok && final(out)@ == old(out)@ + h,
            Err(e) => r matches Err(m) && m@ == e,
        },
{
    let ghost start = out@;
    let mut i: usize = 0;
    proof {
        assert(pages_view(pages@).skip(0) =~= pages_view(pages@));
        assert(start + Seq::<char>::empty() =~= start);
    }
    while i < pages.len()
        invariant
            i <= pages.len(),
            out@.len() >= start.len(),
            out@.subrange(0, start.len() as int) == start,
            scripts_spec(pages_view(pages@)) == prepend(
                out@.subrange(start.len() as int, out@.len() as int),
                scripts_spec(pages_view(pages@).skip(i as int)),
            ),
        decreases pages.len() - i,
    {
        let p = &pages[i];
        let ghost rest = pages_view(pages@).skip(i as int);
        let ghost before = out@;
        proof {
            assert(rest[0] == page_view(*p));
            assert(rest.skip(1) =~= pages_view(pages@).skip(i + 1));
        }
        let js = match gen_js_string(p.name.as_str(), &p.fields) {
            Ok(s) => s,
            Err(e) => {
                return Err(e);
            },
        };
        out.append(js.as_str());
        proof {
            let item = js@;
            let done = before.subrange(start.len() as int, before.len() as int);
            assert(out@.subrange(0, start.len() as int) =~= start);
            assert(out@.subrange(start.len() as int, out@.len() as int) =~= done + item);
            assert forall|b2: Seq<char>| done + (item + b2) =~= (done + item) + b2 by {}
        }
        i = i + 1;
    }
    proof {
        assert(pages_view(pages@).skip(pages@.len() as int) =~= Seq::<(Seq<char>, Seq<FormField>)>::empty());
        let done = out@.subrange(start.len() as int, out@.len() as int);
        assert(done + Seq::<char>::empty() =~= done);
        assert(out@ =~= start + done);
    }
    Ok(())
}

/// The name of the page shown first.
fn default_page<'a>(ui: &'a UiAttrs, pages: &'a Vec<FormPage>) -> (r: &'a str)
    ensures
        r@ == default_page_name(*ui, pages_view(pages@)),
{
    match &ui.default_group {
        Some(g) => g.as_str(),
        None => if pages.len() > 0 {
            pages[0].name.as_str()
        } else {
            "main"
        },
    }
}

/// The whole config document for the pages, or the first form error.
pub fn gen_full_page(ui: &UiAttrs, pages: &Vec<FormPage>) -> (r: Result<String, String>)
    ensures
        match full_page_spec(*ui, pages_view(pages@)) {
            Ok(h) => r matches Ok(s) && s@ == h,
            Err(e) => r matches Err(m) && m@ == e,
        },
{
    let def_s = page_name_to_js_id(default_page(ui, pages));
    let def = def_s.as_str();
    let mut page = String::new();
    push_head(&mut page, ui);
    if pages.len() > 1 {
        page.append(TABS_OPEN);
        push_tabs(&mut page, pages, def);
        page.append(DIV_CLOSE);
    }
    let ghost before_panels = page@;
    match push_panels(&mut page, pages, def) {
        Ok(()) => {},
        Err(e) => {
            return Err(e);
        },
    }
    let ghost after_panels = page@;
    page.append(BODY_CLOSE);
    let ghost before_js = page@;
    match push_scripts(&mut page, pages) {
        Ok(()) => {},
        Err(e) => {
            return Err(e);
        },
    }
    let ghost after_js = page@;
    let def_js = escape_js_str(def);
    page.append(SCRIPT_BETWEEN);
    page.append(CONFIG_PAGE_TAB_SCRIPT);
    page.append(DEFAULT_PAGE_OPEN);
    page.append(def_js.as_str());
    page.append(DEFAULT_PAGE_CLOSE);
    proof {
        let d = default_page_id(*ui, pages_view(pages@));
        let panels = panels_spec(pages_view(pages@), d)->Ok_0;
        let js = scripts_spec(pages_view(pages@))->Ok_0;
        assert(before_panels =~= head_spec(*ui) + tab_bar_spec(pages_view(pages@), d));
        assert(page@ =~= head_spec(*ui) + tab_bar_spec(pages_view(pages@), d) + panels + BODY_CLOSE@ + js
            + SCRIPT_BETWEEN@ + CONFIG_PAGE_TAB_SCRIPT@ + DEFAULT_PAGE_OPEN@ + escape_js_spec(d)
            + DEFAULT_PAGE_CLOSE@);
    }
    Ok(page)
}

} // verus!
