//! What the browser tools decide before the browser is driven: which
//! method a call names, the URL scope of a navigation, the page scripts the
//! form, history and link tools run, the messages they answer with, and
//! when a failed navigation closes the browser. Driving the browser is the
//! caller's part.
use vstd::prelude::*;
use crate::args::{ExtractLinksArgs, SubmitFormArgs};
use crate::text::push_str;
use crate::memory::{to_lowercase, unicode_lowercase};
use crate::text::{chars_of, concat2, concat3, decimal, decimal_string, owned, push_decimal, str_eq, string_of};

verus! {

/// A browser method, by what it does.
#[derive(Debug, Clone, Copy, PartialEq, Eq, Structural)]
pub enum BrowserMethod {
    Navigate,
    Screenshot,
    Click,
    WaitForSelector,
    TypeText,
    SubmitForm,
    GoBack,
    GetContent,
    PageSnapshot,
    ExtractLinks,
}

/// The method a browser call names; its aliases name the same method.
pub open spec fn method_of(name: Seq<char>) -> Option<BrowserMethod> {
    if name == "navigate"@ || name == "browse_url"@ || name == "open_new_tab"@ {
        Some(BrowserMethod::Navigate)
    } else if name == "screenshot"@ {
        Some(BrowserMethod::Screenshot)
    } else if name == "click"@ || name == "click_element"@ {
        Some(BrowserMethod::Click)
    } else if name == "wait_for_selector"@ {
        Some(BrowserMethod::WaitForSelector)
    } else if name == "type_text"@ {
        Some(BrowserMethod::TypeText)
    } else if name == "submit_form"@ {
        Some(BrowserMethod::SubmitForm)
    } else if name == "go_back"@ {
        Some(BrowserMethod::GoBack)
    } else if name == "get_content"@ || name == "get_page_content"@ {
        Some(BrowserMethod::GetContent)
    } else if name == "get_page_snapshot"@ {
        Some(BrowserMethod::PageSnapshot)
    } else if name == "extract_links"@ {
        Some(BrowserMethod::ExtractLinks)
    } else {
        None
    }
}

pub fn browser_method(name: &str) -> (r: Option<BrowserMethod>)
    ensures
        r == method_of(name@),
{
    if str_eq(name, "navigate") || str_eq(name, "browse_url") || str_eq(name, "open_new_tab") {
        Some(BrowserMethod::Navigate)
    } else if str_eq(name, "screenshot") {
        Some(BrowserMethod::Screenshot)
    } else if str_eq(name, "click") || str_eq(name, "click_element") {
        Some(BrowserMethod::Click)
    } else if str_eq(name, "wait_for_selector") {
        Some(BrowserMethod::WaitForSelector)
    } else if str_eq(name, "type_text") {
        Some(BrowserMethod::TypeText)
    } else if str_eq(name, "submit_form") {
        Some(BrowserMethod::SubmitForm)
    } else if str_eq(name, "go_back") {
        Some(BrowserMethod::GoBack)
    } else if str_eq(name, "get_content") || str_eq(name, "get_page_content") {
        Some(BrowserMethod::GetContent)
    } else if str_eq(name, "get_page_snapshot") {
        Some(BrowserMethod::PageSnapshot)
    } else if str_eq(name, "extract_links") {
        Some(BrowserMethod::ExtractLinks)
    } else {
        None
    }
}

/// The error of a call that names no browser method.
pub fn unknown_browser_method(name: &str) -> (r: String)
    ensures
        r@ == "Unknown browser method: "@ + name@,
{
    concat2("Unknown browser method: ", name)
}

/// A navigation that failed by timing out leaves the browser closed.
pub open spec fn closes_browser(error: Seq<char>) -> bool {
    let e = unicode_lowercase(error);
    crate::text::contains_seq(e, "timed out"@) || crate::text::contains_seq(e, "timeout"@)
}

pub fn navigation_error_closes_browser(error: &str) -> (r: bool)
    ensures
        r == closes_browser(error@),
{
    let e = chars_of(to_lowercase(error).as_str());
    crate::text::contains_sub(&e, &chars_of("timed out")) || crate::text::contains_sub(&e, &chars_of("timeout"))
}

/// The text that `serde_json::to_string` writes for an optional selector.
pub uninterp spec fn json_selector(o: Option<Seq<char>>) -> Seq<char>;

/// `serde_json::to_string` of an optional selector. It writes into a
/// `Vec<u8>`, and writing `null` or a string there cannot fail, so it
/// succeeds; its text is named by `json_selector`.
#[verifier::external_body]
fn selector_json(o: &Option<String>) -> (r: Result<String, String>)
    ensures
        r is Ok,
        r matches Ok(t) ==> t@ == json_selector(crate::manifest::opt_view(*o)),
{
    serde_json::to_string(o).map_err(|e| e.to_string())
}

/// The page script of `submit_form`: submit the form that `form_selector`
/// names (else the first form), by clicking `submit_selector` where one is
/// named.
pub open spec fn submit_script(form: Option<Seq<char>>, submit: Option<Seq<char>>) -> Seq<char> {
    "(function() {\n                        const formSel = "@ + json_selector(form) + ";\n                        const submitSel = "@ + json_selector(submit) + ";\n                        const form = formSel ? document.querySelector(formSel) : document.querySelector('form');\n                        if (!form) return JSON.stringify({ ok: false, error: 'form_not_found' });\n                        if (submitSel) {\n                            const submitEl = document.querySelector(submitSel);\n                            if (!submitEl) return JSON.stringify({ ok: false, error: 'submit_not_found' });\n                            submitEl.click();\n                            return JSON.stringify({ ok: true, method: 'click_submit' });\n                        }\n                        const ev = new Event('submit', { bubbles: true, cancelable: true });\n                        form.dispatchEvent(ev);\n                        if (typeof form.submit === 'function') form.submit();\n                        return JSON.stringify({ ok: true, method: 'form_submit' });\n                    })()"@
}

/// The script of `submit_form`. (Where a selector could not be written as
/// JSON the answer would be `Invalid form selector: ` or `Invalid submit
/// selector: ` and the error; writing a selector cannot fail.)
pub fn submit_form_script(args: &SubmitFormArgs) -> (r: Result<String, String>)
    ensures
        r is Ok,
        r is Ok ==> r->Ok_0@ == submit_script(
            crate::manifest::opt_view(args.form_selector),
            crate::manifest::opt_view(args.submit_selector),
        ),
{
    let form = match selector_json(&args.form_selector) {
        Ok(v) => v,
        Err(e) => {
            return Err(concat2("Invalid form selector: ", e.as_str()));
        },
    };
    let submit = match selector_json(&args.submit_selector) {
        Ok(v) => v,
        Err(e) => {
            return Err(concat2("Invalid submit selector: ", e.as_str()));
        },
    };
    let a = concat3("(function() {\n                        const formSel = ", form.as_str(), ";\n                        const submitSel = ");
    Ok(concat3(a.as_str(), submit.as_str(), ";\n                        const form = formSel ? document.querySelector(formSel) : document.querySelector('form');\n                        if (!form) return JSON.stringify({ ok: false, error: 'form_not_found' });\n                        if (submitSel) {\n                            const submitEl = document.querySelector(submitSel);\n                            if (!submitEl) return JSON.stringify({ ok: false, error: 'submit_not_found' });\n                            submitEl.click();\n                            return JSON.stringify({ ok: true, method: 'click_submit' });\n                        }\n                        const ev = new Event('submit', { bubbles: true, cancelable: true });\n                        form.dispatchEvent(ev);\n                        if (typeof form.submit === 'function') form.submit();\n                        return JSON.stringify({ ok: true, method: 'form_submit' });\n                    })()"))
}

/// The page script of `extract_links`: at most `limit` links, each with its
/// address, text and title.
pub open spec fn links_script(limit: nat) -> Seq<char> {
    "(function() { const out = []; const els = document.querySelectorAll('a[href]'); for (let i = 0; i < els.length && out.length < "@ + decimal(limit) + "; i++) { const el = els[i]; out.push({ href: el.href || '', text: (el.innerText || el.textContent || '').trim(), title: (el.getAttribute('title') || '').trim() }); } return JSON.stringify(out); })()"@
}

pub fn extract_links_script(args: &ExtractLinksArgs) -> (r: String)
    ensures
        r@ == links_script(crate::args::clamp(
            match args.limit {
                Some(v) => v as int,
                None => 100,
            },
            1,
            500,
        ) as nat),
{
    let limit = args.effective_limit();
    let mut out: Vec<char> = Vec::new();
    push_str(&mut out, "(function() { const out = []; const els = document.querySelectorAll('a[href]'); for (let i = 0; i < els.length && out.length < ");
    push_decimal(&mut out, limit as u64);
    push_str(&mut out, "; i++) { const el = els[i]; out.push({ href: el.href || '', text: (el.innerText || el.textContent || '').trim(), title: (el.getAttribute('title') || '').trim() }); } return JSON.stringify(out); })()");
    string_of(out.as_slice())
}

/// The page script of `go_back`.
pub fn go_back_script() -> (r: &'static str)
    ensures
        r@ == "(function() { history.back(); return JSON.stringify({ ok: true }); })()"@,
{
    "(function() { history.back(); return JSON.stringify({ ok: true }); })()"
}

/// The page script that reads the page's address, title and the first 2000
/// characters of its text.
pub fn page_snapshot_script() -> (r: &'static str)
    ensures
        r@ == "(function() { return JSON.stringify({ url: location.href, title: document.title || '', content_preview: (document.body ? document.body.innerText.substring(0, 2000) : '') }); })()"@,
{
    "(function() { return JSON.stringify({ url: location.href, title: document.title || '', content_preview: (document.body ? document.body.innerText.substring(0, 2000) : '') }); })()"
}

/// The answer of `click_element`.
pub fn clicked_message(selector: &str) -> (r: String)
    ensures
        r@ == "Clicked element: "@ + selector@,
{
    concat2("Clicked element: ", selector)
}

/// The answer of `wait_for_selector`.
pub fn selector_found_message(selector: &str, timeout_ms: u64) -> (r: String)
    ensures
        r@ == "Selector '"@ + selector@ + "' found within "@ + decimal(timeout_ms as nat) + "ms"@,
{
    let a = concat3("Selector '", selector, "' found within ");
    concat3(a.as_str(), decimal_string(timeout_ms).as_str(), "ms")
}

/// The answer of `type_text`.
pub fn typed_message(selector: &str) -> (r: String)
    ensures
        r@ == "Typed text into '"@ + selector@ + "'"@,
{
    concat3("Typed text into '", selector, "'")
}

/// The step of a browser tool that failed, as its error names it.
#[derive(Debug, Clone, Copy, PartialEq, Eq, Structural)]
pub enum BrowserStep {
    SubmitForm,
    GoBack,
    GoBackSnapshot,
    PageSnapshot,
    ExtractLinks,
}

pub open spec fn step_error(step: BrowserStep, e: Seq<char>) -> Seq<char> {
    match step {
        BrowserStep::SubmitForm => "Failed to submit form: "@ + e,
        BrowserStep::GoBack => "Failed to navigate back: "@ + e,
        BrowserStep::GoBackSnapshot => "Back navigation completed but snapshot failed: "@ + e,
        BrowserStep::PageSnapshot => "Failed to snapshot page: "@ + e,
        BrowserStep::ExtractLinks => "Failed to extract links: "@ + e,
    }
}

/// The error a browser tool reports when the page script of `step` fails.
pub fn browser_step_error(step: BrowserStep, e: &str) -> (r: String)
    ensures
        r@ == step_error(step, e@),
{
    match step {
        BrowserStep::SubmitForm => concat2("Failed to submit form: ", e),
        BrowserStep::GoBack => concat2("Failed to navigate back: ", e),
        BrowserStep::GoBackSnapshot => concat2("Back navigation completed but snapshot failed: ", e),
        BrowserStep::PageSnapshot => concat2("Failed to snapshot page: ", e),
        BrowserStep::ExtractLinks => concat2("Failed to extract links: ", e),
    }
}

} // verus!
