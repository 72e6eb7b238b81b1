//! CSS formatting and minification of the working buffer, through
//! lightningcss.

use vstd::prelude::*;
use lightningcss::stylesheet::{MinifyOptions, ParserOptions, PrinterOptions, StyleSheet};

verus! {

/// Why a buffer failed to re-format: it is not CSS (with the parser's
/// message), the minifier rejected it, or the printer failed.
#[derive(Debug)]
pub enum CssError {
    ParseError(String),
    MinifyError(String),
    FormatError(()),
}

impl CssError {
    pub fn message(&self) -> (r: String)
        ensures
            match self {
                CssError::ParseError(m) => r@ == ("Invalid CSS - "@ + m@),
                CssError::MinifyError(m) => r@ == ("Failed to minify CSS - "@ + m@),
                CssError::FormatError(..) => r@ == "Failed to format CSS"@,
            },
    {
        match self {
            CssError::ParseError(m) => String::from_str("Invalid CSS - ").concat(m.as_str()),
            CssError::MinifyError(m) => String::from_str("Failed to minify CSS - ").concat(
                m.as_str(),
            ),
            CssError::FormatError(..) => String::from_str("Failed to format CSS"),
        }
    }
}

/// What formatting yields on this text: `None` exactly when the formatting
/// pipeline rejects it, otherwise the re-printed stylesheet.
pub uninterp spec fn css_pretty_of(s: Seq<char>) -> Option<Seq<char>>;

/// What minification yields on this text: `None` exactly when the
/// minification pipeline rejects it, otherwise the minified stylesheet.
pub uninterp spec fn css_min_of(s: Seq<char>) -> Option<Seq<char>>;

/// Relies on lightningcss's `StyleSheet::parse` and `StyleSheet::to_css`
/// (without minification): both are pure functions of the source text, and
/// an error is either the parser's or the printer's.
#[verifier::external_body]
fn css_format_raw(s: &str) -> (r: Result<String, CssError>)
    ensures
        (r is Ok) == (css_pretty_of(s@) is Some),
        r matches Ok(t) ==> css_pretty_of(s@) == Some(t@),
        r matches Err(e) ==> e is ParseError || e is FormatError,
{
    let sheet = match StyleSheet::parse(s, ParserOptions::default()) {
        Ok(sheet) => sheet,
        Err(e) => return Err(CssError::ParseError(e.to_string())),
    };
    let printer_options = PrinterOptions { minify: false, ..PrinterOptions::default() };
    match sheet.to_css(printer_options) {
        Ok(result) => Ok(result.code),
        Err(_) => Err(CssError::FormatError(())),
    }
}

/// Relies on lightningcss's `StyleSheet::parse`, `StyleSheet::minify` and
/// `StyleSheet::to_css` (with minification): all pure functions of the
/// source text, each error mapped to its own variant.
#[verifier::external_body]
fn css_minify_raw(s: &str) -> (r: Result<String, CssError>)
    ensures
        (r is Ok) == (css_min_of(s@) is Some),
        r matches Ok(t) ==> css_min_of(s@) == Some(t@),
{
    let mut sheet = match StyleSheet::parse(s, ParserOptions::default()) {
        Ok(sheet) => sheet,
        Err(e) => return Err(CssError::ParseError(e.to_string())),
    };
    if let Err(e) = sheet.minify(MinifyOptions::default()) {
        return Err(CssError::MinifyError(e.to_string()));
    }
    let printer_options = PrinterOptions { minify: true, ..PrinterOptions::default() };
    match sheet.to_css(printer_options) {
        Ok(result) => Ok(result.code),
        Err(_) => Err(CssError::FormatError(())),
    }
}

/// Re-prints the buffer as formatted CSS; errors exactly on texts the CSS
/// pipeline rejects.
pub fn css_format(buffer: &str) -> (r: Result<String, CssError>)
    ensures
        (r is Ok) == (css_pretty_of(buffer@) is Some),
        r matches Ok(t) ==> css_pretty_of(buffer@) == Some(t@),
        r matches Err(e) ==> e is ParseError || e is FormatError,
{
    css_format_raw(buffer)
}

/// Minifies the buffer as CSS; errors exactly on texts the CSS pipeline
/// rejects.
pub fn css_minify(buffer: &str) -> (r: Result<String, CssError>)
    ensures
        (r is Ok) == (css_min_of(buffer@) is Some),
        r matches Ok(t) ==> css_min_of(buffer@) == Some(t@),
{
    css_minify_raw(buffer)
}

} // verus!
