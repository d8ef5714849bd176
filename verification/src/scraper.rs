//! The injection harness handed to the host's embedded browser. Obtaining
//! the remote quota read-out is the host's business; the library only
//! assembles the exact script text around a scrape expression, so that the
//! host and its tests agree on it to the character. The script encodes the
//! scraped JSON and navigates to a result address the host intercepts.

use vstd::prelude::*;

verus! {

/// The script text before the scrape expression.
pub open spec fn inject_prefix() -> Seq<char> {
    "(function() {\n  try {\n    const jsonStr = "@
}

/// The script text after the scrape expression: encode the JSON and
/// navigate to the result address.
pub open spec fn inject_suffix() -> Seq<char> {
    ";\n    const encoded = btoa(unescape(encodeURIComponent(jsonStr)));\n    window.location.href = 'burnrate://result/' + encoded;\n  } catch(e) {\n    console.error('BurnRate scrape error:', e);\n  }\n})();\n"@
}

/// Wraps a scrape expression in the injection harness: exactly the
/// prefix, the expression, and the suffix.
pub fn build_scrape_inject_js(scrape_js: &str) -> (r: String)
    ensures
        r@ == inject_prefix() + scrape_js@ + inject_suffix(),
{
    let s = String::from_str("(function() {\n  try {\n    const jsonStr = ");
    let s = s.concat(scrape_js);
    let s = s.concat(
        ";\n    const encoded = btoa(unescape(encodeURIComponent(jsonStr)));\n    window.location.href = 'burnrate://result/' + encoded;\n  } catch(e) {\n    console.error('BurnRate scrape error:', e);\n  }\n})();\n",
    );
    s
}

/// The same harness, for call sites that hold only the expression text.
pub fn build_scrape_inject_js_static(scrape_js: &str) -> (r: String)
    ensures
        r@ == inject_prefix() + scrape_js@ + inject_suffix(),
{
    build_scrape_inject_js(scrape_js)
}

} // verus!
