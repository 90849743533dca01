//! Fixed HTML fragments of the e-mail chrome. Every style is inlined on
//! its element; colours other than the theme's brand colours are the
//! fixed palette (heading #0f172a, body #334155, muted #64748b, surface
//! #f8fafc, raised #ffffff, hairline #e2e8f0) and the system font stacks.
use vstd::prelude::*;
use crate::templates::escape::{html_escaped, push_escaped};
use crate::templates::theme::{Theme, ThemeV};
use crate::text::{append_string, has_sub, lemma_sub_within};

verus! {

/// The pill above the headline.
#[verifier::opaque]
pub open spec fn frag_doc_eyebrow(text: Seq<char>, t: ThemeV) -> Seq<char> {
    "<div style=\"display:inline-block;font-size:11px;font-weight:600;letter-spacing:0.1em;text-transform:uppercase;color:"@
        + t.brand_primary
        + ";background:rgba(13,72,138,0.08);padding:5px 10px;border-radius:999px;margin:0 0 14px;\">"@
        + html_escaped(text)
        + "</div>"@
}

/// Appends: the pill above the headline.
pub fn push_doc_eyebrow(out: &mut String, text: &str, t: &Theme)
    ensures
        final(out)@ == old(out)@ + frag_doc_eyebrow(text@, t@),
{
    proof {
        reveal(frag_doc_eyebrow);
    }
    out.append("<div style=\"display:inline-block;font-size:11px;font-weight:600;letter-spacing:0.1em;text-transform:uppercase;color:");
    append_string(out, &t.brand_primary);
    out.append(";background:rgba(13,72,138,0.08);padding:5px 10px;border-radius:999px;margin:0 0 14px;\">");
    push_escaped(out, text);
    out.append("</div>");
}

/// The headline.
#[verifier::opaque]
pub open spec fn frag_doc_heading(text: Seq<char>) -> Seq<char> {
    "<h1 style=\"margin:0 0 12px;font-size:26px;line-height:1.25;color:#0f172a;font-weight:700;letter-spacing:-0.02em;font-family:-apple-system,BlinkMacSystemFont,'Segoe UI',Roboto,Helvetica,Arial,sans-serif;\">"@
        + html_escaped(text)
        + "</h1>"@
}

/// Appends: the headline.
pub fn push_doc_heading(out: &mut String, text: &str)
    ensures
        final(out)@ == old(out)@ + frag_doc_heading(text@),
{
    proof {
        reveal(frag_doc_heading);
    }
    out.append("<h1 style=\"margin:0 0 12px;font-size:26px;line-height:1.25;color:#0f172a;font-weight:700;letter-spacing:-0.02em;font-family:-apple-system,BlinkMacSystemFont,'Segoe UI',Roboto,Helvetica,Arial,sans-serif;\">");
    push_escaped(out, text);
    out.append("</h1>");
}

/// The intro paragraph.
#[verifier::opaque]
pub open spec fn frag_doc_intro(text: Seq<char>) -> Seq<char> {
    "<p style=\"margin:0 0 24px;font-size:14.5px;line-height:1.65;color:#334155;font-family:-apple-system,BlinkMacSystemFont,'Segoe UI',Roboto,Helvetica,Arial,sans-serif;\">"@
        + html_escaped(text)
        + "</p>"@
}

/// Appends: the intro paragraph.
pub fn push_doc_intro(out: &mut String, text: &str)
    ensures
        final(out)@ == old(out)@ + frag_doc_intro(text@),
{
    proof {
        reveal(frag_doc_intro);
    }
    out.append("<p style=\"margin:0 0 24px;font-size:14.5px;line-height:1.65;color:#334155;font-family:-apple-system,BlinkMacSystemFont,'Segoe UI',Roboto,Helvetica,Arial,sans-serif;\">");
    push_escaped(out, text);
    out.append("</p>");
}

/// The opening of the footer-lines section.
#[verifier::opaque]
pub open spec fn frag_footer_open() -> Seq<char> {
    "<div style=\"margin:28px 0 0;padding-top:20px;border-top:1px solid #e2e8f0;\">"@
}

/// Appends: the opening of the footer-lines section.
pub fn push_footer_open(out: &mut String)
    ensures
        final(out)@ == old(out)@ + frag_footer_open(),
{
    proof {
        reveal(frag_footer_open);
    }
    out.append("<div style=\"margin:28px 0 0;padding-top:20px;border-top:1px solid #e2e8f0;\">");
}

/// One footer line.
#[verifier::opaque]
pub open spec fn frag_footer_line(text: Seq<char>) -> Seq<char> {
    "<p style=\"margin:0 0 6px;font-size:13px;line-height:1.6;color:#64748b;font-family:-apple-system,BlinkMacSystemFont,'Segoe UI',Roboto,Helvetica,Arial,sans-serif;\">"@
        + html_escaped(text)
        + "</p>"@
}

/// Appends: one footer line.
pub fn push_footer_line(out: &mut String, text: &str)
    ensures
        final(out)@ == old(out)@ + frag_footer_line(text@),
{
    proof {
        reveal(frag_footer_line);
    }
    out.append("<p style=\"margin:0 0 6px;font-size:13px;line-height:1.6;color:#64748b;font-family:-apple-system,BlinkMacSystemFont,'Segoe UI',Roboto,Helvetica,Arial,sans-serif;\">");
    push_escaped(out, text);
    out.append("</p>");
}

/// The page around the rendered body, from the theme's texts.
#[verifier::opaque]
pub open spec fn frag_page_text(
    title: Seq<char>,
    preheader: Seq<char>,
    inner: Seq<char>,
    brand_navy: Seq<char>,
    brand_primary: Seq<char>,
    brand_accent: Seq<char>,
    monogram: Seq<char>,
    brand_name: Seq<char>,
    brand_suffix: Seq<char>,
    tagline: Seq<char>,
    legal_name: Seq<char>,
    location: Seq<char>,
    website: Seq<char>,
    contact_email: Seq<char>,
) -> Seq<char> {
    "<!DOCTYPE html>\n<html lang=\"en\">\n<head>\n<meta charset=\"utf-8\">\n<meta name=\"viewport\" content=\"width=device-width,initial-scale=1\">\n<meta name=\"color-scheme\" content=\"light only\">\n<meta name=\"supported-color-schemes\" content=\"light only\">\n<title>"@
        + html_escaped(title)
        + "</title>\n</head>\n<body style=\"margin:0;padding:0;background:#f8fafc;font-family:-apple-system,BlinkMacSystemFont,'Segoe UI',Roboto,Helvetica,Arial,sans-serif;color:#334155;-webkit-font-smoothing:antialiased;line-height:1.5;\">\n<div style=\"display:none;max-height:0;overflow:hidden;mso-hide:all;font-size:1px;color:#f8fafc;\">"@
        + html_escaped(preheader)
        + "</div>\n<table role=\"presentation\" width=\"100%\" cellpadding=\"0\" cellspacing=\"0\" border=\"0\" style=\"background:#f8fafc;\">\n  <tr><td align=\"center\" style=\"padding:40px 16px;\">\n    <table role=\"presentation\" width=\"640\" cellpadding=\"0\" cellspacing=\"0\" border=\"0\" style=\"max-width:640px;background:#ffffff;border:1px solid #e2e8f0;border-radius:14px;overflow:hidden;box-shadow:0 1px 3px rgba(15,23,42,0.04),0 8px 24px rgba(15,23,42,0.06);\">\n      <tr><td style=\"background:linear-gradient(135deg,"@
        + brand_navy
        + " 0%,"@
        + brand_primary
        + " 60%,"@
        + brand_accent
        + " 100%);padding:28px 36px;color:#ffffff;\">\n        <table cellpadding=\"0\" cellspacing=\"0\" border=\"0\">\n          <tr>\n            <td style=\"vertical-align:middle;padding-right:14px;\">\n              <span style=\"display:inline-block;width:36px;height:36px;background:rgba(255,255,255,0.18);border:1px solid rgba(255,255,255,0.35);border-radius:9px;text-align:center;line-height:36px;font-size:16px;font-weight:800;color:#ffffff;letter-spacing:-0.02em;font-family:-apple-system,BlinkMacSystemFont,'Segoe UI',Roboto,Helvetica,Arial,sans-serif;\">"@
        + monogram
        + "</span>\n            </td>\n            <td style=\"vertical-align:middle;font-family:-apple-system,BlinkMacSystemFont,'Segoe UI',Roboto,Helvetica,Arial,sans-serif;\">\n              <div style=\"font-size:18px;font-weight:700;letter-spacing:-0.01em;color:#ffffff;\">"@
        + brand_name
        + " <span style=\"color:rgba(255,255,255,0.78);font-weight:500;\">"@
        + brand_suffix
        + "</span></div>\n              <div style=\"font-size:12px;font-weight:500;color:rgba(255,255,255,0.72);letter-spacing:0.04em;text-transform:uppercase;margin-top:2px;\">"@
        + tagline
        + "</div>\n            </td>\n          </tr>\n        </table>\n      </td></tr>\n      <tr><td style=\"padding:32px 36px 28px;\">\n        "@
        + inner
        + "\n      </td></tr>\n      <tr><td style=\"background:#f8fafc;padding:22px 36px;border-top:1px solid #e2e8f0;\">\n        <p style=\"margin:0;font-size:12px;line-height:1.7;color:#64748b;font-family:-apple-system,BlinkMacSystemFont,'Segoe UI',Roboto,Helvetica,Arial,sans-serif;\">\n          <strong style=\"color:#334155;font-weight:600;\">"@
        + legal_name
        + "</strong> &nbsp;·&nbsp; "@
        + location
        + "<br>\n          <a href=\"https://"@
        + website
        + "\" style=\"color:"@
        + brand_primary
        + ";text-decoration:none;font-weight:600;\">"@
        + website
        + "</a> &nbsp;·&nbsp; <a href=\"mailto:"@
        + contact_email
        + "\" style=\"color:"@
        + brand_primary
        + ";text-decoration:none;font-weight:600;\">"@
        + contact_email
        + "</a>\n        </p>\n      </td></tr>\n    </table>\n    <p style=\"margin:16px 0 0;font-size:11px;color:#64748b;text-align:center;letter-spacing:0.02em;font-family:-apple-system,BlinkMacSystemFont,'Segoe UI',Roboto,Helvetica,Arial,sans-serif;\">\n      Automated message — replies go to a real human.\n    </p>\n  </td></tr>\n</table>\n</body>\n</html>\n"@
}

/// The page around the rendered body: head, hidden preheader, branded hero, footer.
pub open spec fn frag_page(title: Seq<char>, preheader: Seq<char>, inner: Seq<char>, t: ThemeV) -> Seq<char> {
    frag_page_text(title, preheader, inner, t.brand_navy, t.brand_primary, t.brand_accent, t.monogram, t.brand_name, t.brand_suffix, t.tagline, t.legal_name, t.location, t.website, t.contact_email)
}

/// Appends: the page around the rendered body: head, hidden preheader, branded hero, footer.
fn push_page_text(
    out: &mut String,
    title: &str,
    preheader: &str,
    inner: &str,
    brand_navy: &str,
    brand_primary: &str,
    brand_accent: &str,
    monogram: &str,
    brand_name: &str,
    brand_suffix: &str,
    tagline: &str,
    legal_name: &str,
    location: &str,
    website: &str,
    contact_email: &str,
)
    ensures
        final(out)@ == old(out)@ + frag_page_text(title@, preheader@, inner@, brand_navy@, brand_primary@, brand_accent@, monogram@, brand_name@, brand_suffix@, tagline@, legal_name@, location@, website@, contact_email@),
{
    proof {
        reveal(frag_page_text);
    }
    out.append("<!DOCTYPE html>\n<html lang=\"en\">\n<head>\n<meta charset=\"utf-8\">\n<meta name=\"viewport\" content=\"width=device-width,initial-scale=1\">\n<meta name=\"color-scheme\" content=\"light only\">\n<meta name=\"supported-color-schemes\" content=\"light only\">\n<title>");
    push_escaped(out, title);
    out.append("</title>\n</head>\n<body style=\"margin:0;padding:0;background:#f8fafc;font-family:-apple-system,BlinkMacSystemFont,'Segoe UI',Roboto,Helvetica,Arial,sans-serif;color:#334155;-webkit-font-smoothing:antialiased;line-height:1.5;\">\n<div style=\"display:none;max-height:0;overflow:hidden;mso-hide:all;font-size:1px;color:#f8fafc;\">");
    push_escaped(out, preheader);
    out.append("</div>\n<table role=\"presentation\" width=\"100%\" cellpadding=\"0\" cellspacing=\"0\" border=\"0\" style=\"background:#f8fafc;\">\n  <tr><td align=\"center\" style=\"padding:40px 16px;\">\n    <table role=\"presentation\" width=\"640\" cellpadding=\"0\" cellspacing=\"0\" border=\"0\" style=\"max-width:640px;background:#ffffff;border:1px solid #e2e8f0;border-radius:14px;overflow:hidden;box-shadow:0 1px 3px rgba(15,23,42,0.04),0 8px 24px rgba(15,23,42,0.06);\">\n      <tr><td style=\"background:linear-gradient(135deg,");
    out.append(brand_navy);
    out.append(" 0%,");
    out.append(brand_primary);
    out.append(" 60%,");
    out.append(brand_accent);
    out.append(" 100%);padding:28px 36px;color:#ffffff;\">\n        <table cellpadding=\"0\" cellspacing=\"0\" border=\"0\">\n          <tr>\n            <td style=\"vertical-align:middle;padding-right:14px;\">\n              <span style=\"display:inline-block;width:36px;height:36px;background:rgba(255,255,255,0.18);border:1px solid rgba(255,255,255,0.35);border-radius:9px;text-align:center;line-height:36px;font-size:16px;font-weight:800;color:#ffffff;letter-spacing:-0.02em;font-family:-apple-system,BlinkMacSystemFont,'Segoe UI',Roboto,Helvetica,Arial,sans-serif;\">");
    out.append(monogram);
    out.append("</span>\n            </td>\n            <td style=\"vertical-align:middle;font-family:-apple-system,BlinkMacSystemFont,'Segoe UI',Roboto,Helvetica,Arial,sans-serif;\">\n              <div style=\"font-size:18px;font-weight:700;letter-spacing:-0.01em;color:#ffffff;\">");
    out.append(brand_name);
    out.append(" <span style=\"color:rgba(255,255,255,0.78);font-weight:500;\">");
    out.append(brand_suffix);
    out.append("</span></div>\n              <div style=\"font-size:12px;font-weight:500;color:rgba(255,255,255,0.72);letter-spacing:0.04em;text-transform:uppercase;margin-top:2px;\">");
    out.append(tagline);
    out.append("</div>\n            </td>\n          </tr>\n        </table>\n      </td></tr>\n      <tr><td style=\"padding:32px 36px 28px;\">\n        ");
    out.append(inner);
    out.append("\n      </td></tr>\n      <tr><td style=\"background:#f8fafc;padding:22px 36px;border-top:1px solid #e2e8f0;\">\n        <p style=\"margin:0;font-size:12px;line-height:1.7;color:#64748b;font-family:-apple-system,BlinkMacSystemFont,'Segoe UI',Roboto,Helvetica,Arial,sans-serif;\">\n          <strong style=\"color:#334155;font-weight:600;\">");
    out.append(legal_name);
    out.append("</strong> &nbsp;·&nbsp; ");
    out.append(location);
    out.append("<br>\n          <a href=\"https://");
    out.append(website);
    out.append("\" style=\"color:");
    out.append(brand_primary);
    out.append(";text-decoration:none;font-weight:600;\">");
    out.append(website);
    out.append("</a> &nbsp;·&nbsp; <a href=\"mailto:");
    out.append(contact_email);
    out.append("\" style=\"color:");
    out.append(brand_primary);
    out.append(";text-decoration:none;font-weight:600;\">");
    out.append(contact_email);
    out.append("</a>\n        </p>\n      </td></tr>\n    </table>\n    <p style=\"margin:16px 0 0;font-size:11px;color:#64748b;text-align:center;letter-spacing:0.02em;font-family:-apple-system,BlinkMacSystemFont,'Segoe UI',Roboto,Helvetica,Arial,sans-serif;\">\n      Automated message — replies go to a real human.\n    </p>\n  </td></tr>\n</table>\n</body>\n</html>\n");
}

/// Appends: the page around the rendered body: head, hidden preheader, branded hero, footer.
pub fn push_page(out: &mut String, title: &str, preheader: &str, inner: &str, t: &Theme)
    ensures
        final(out)@ == old(out)@ + frag_page(title@, preheader@, inner@, t@),
{
    push_page_text(
        out,
        title,
        preheader,
        inner,
        t.brand_navy.as_str(),
        t.brand_primary.as_str(),
        t.brand_accent.as_str(),
        t.monogram.as_str(),
        t.brand_name.as_str(),
        t.brand_suffix.as_str(),
        t.tagline.as_str(),
        t.legal_name.as_str(),
        t.location.as_str(),
        t.website.as_str(),
        t.contact_email.as_str(),
    );
}

/// A section heading block.
#[verifier::opaque]
pub open spec fn frag_section_heading(text: Seq<char>) -> Seq<char> {
    "<h2 style=\"margin:30px 0 14px;font-size:18px;font-weight:700;color:#0f172a;letter-spacing:-0.01em;font-family:-apple-system,BlinkMacSystemFont,'Segoe UI',Roboto,Helvetica,Arial,sans-serif;\">"@
        + html_escaped(text)
        + "</h2>"@
}

/// Appends: a section heading block.
pub fn push_section_heading(out: &mut String, text: &str)
    ensures
        final(out)@ == old(out)@ + frag_section_heading(text@),
{
    proof {
        reveal(frag_section_heading);
    }
    out.append("<h2 style=\"margin:30px 0 14px;font-size:18px;font-weight:700;color:#0f172a;letter-spacing:-0.01em;font-family:-apple-system,BlinkMacSystemFont,'Segoe UI',Roboto,Helvetica,Arial,sans-serif;\">");
    push_escaped(out, text);
    out.append("</h2>");
}

/// A paragraph block.
#[verifier::opaque]
pub open spec fn frag_paragraph(text: Seq<char>) -> Seq<char> {
    "<p style=\"margin:0 0 18px;font-size:14.5px;line-height:1.65;color:#334155;font-family:-apple-system,BlinkMacSystemFont,'Segoe UI',Roboto,Helvetica,Arial,sans-serif;\">"@
        + html_escaped(text)
        + "</p>"@
}

/// Appends: a paragraph block.
pub fn push_paragraph(out: &mut String, text: &str)
    ensures
        final(out)@ == old(out)@ + frag_paragraph(text@),
{
    proof {
        reveal(frag_paragraph);
    }
    out.append("<p style=\"margin:0 0 18px;font-size:14.5px;line-height:1.65;color:#334155;font-family:-apple-system,BlinkMacSystemFont,'Segoe UI',Roboto,Helvetica,Arial,sans-serif;\">");
    push_escaped(out, text);
    out.append("</p>");
}

/// The opening of a group card: eyebrow pill and title.
#[verifier::opaque]
pub open spec fn frag_group_head(eyebrow: Seq<char>, title: Seq<char>, t: ThemeV) -> Seq<char> {
    "<table role=\"presentation\" width=\"100%\" cellpadding=\"0\" cellspacing=\"0\" border=\"0\" style=\"background:#ffffff;border:1px solid #e2e8f0;border-radius:12px;border-left:3px solid "@
        + t.brand_accent
        + ";margin:0 0 18px;\">\n  <tr><td style=\"padding:18px 20px 16px;\">\n    <div style=\"display:inline-block;font-size:10.5px;font-weight:700;letter-spacing:0.1em;text-transform:uppercase;color:"@
        + t.brand_primary
        + ";background:rgba(13,72,138,0.08);padding:4px 9px;border-radius:999px;margin:0 0 10px;font-family:-apple-system,BlinkMacSystemFont,'Segoe UI',Roboto,Helvetica,Arial,sans-serif;\">"@
        + html_escaped(eyebrow)
        + "</div>\n    <div style=\"font-size:18px;font-weight:700;color:#0f172a;letter-spacing:-0.01em;margin:0 0 6px;font-family:-apple-system,BlinkMacSystemFont,'Segoe UI',Roboto,Helvetica,Arial,sans-serif;\">"@
        + html_escaped(title)
        + "</div>"@
}

/// Appends: the opening of a group card: eyebrow pill and title.
pub fn push_group_head(out: &mut String, eyebrow: &str, title: &str, t: &Theme)
    ensures
        final(out)@ == old(out)@ + frag_group_head(eyebrow@, title@, t@),
{
    proof {
        reveal(frag_group_head);
    }
    out.append("<table role=\"presentation\" width=\"100%\" cellpadding=\"0\" cellspacing=\"0\" border=\"0\" style=\"background:#ffffff;border:1px solid #e2e8f0;border-radius:12px;border-left:3px solid ");
    append_string(out, &t.brand_accent);
    out.append(";margin:0 0 18px;\">\n  <tr><td style=\"padding:18px 20px 16px;\">\n    <div style=\"display:inline-block;font-size:10.5px;font-weight:700;letter-spacing:0.1em;text-transform:uppercase;color:");
    append_string(out, &t.brand_primary);
    out.append(";background:rgba(13,72,138,0.08);padding:4px 9px;border-radius:999px;margin:0 0 10px;font-family:-apple-system,BlinkMacSystemFont,'Segoe UI',Roboto,Helvetica,Arial,sans-serif;\">");
    push_escaped(out, eyebrow);
    out.append("</div>\n    <div style=\"font-size:18px;font-weight:700;color:#0f172a;letter-spacing:-0.01em;margin:0 0 6px;font-family:-apple-system,BlinkMacSystemFont,'Segoe UI',Roboto,Helvetica,Arial,sans-serif;\">");
    push_escaped(out, title);
    out.append("</div>");
}

/// A group card subtitle.
#[verifier::opaque]
pub open spec fn frag_group_subtitle(text: Seq<char>) -> Seq<char> {
    "<div style=\"font-size:13px;color:#64748b;margin:0 0 14px;line-height:1.55;font-family:-apple-system,BlinkMacSystemFont,'Segoe UI',Roboto,Helvetica,Arial,sans-serif;\">"@
        + html_escaped(text)
        + "</div>"@
}

/// Appends: a group card subtitle.
pub fn push_group_subtitle(out: &mut String, text: &str)
    ensures
        final(out)@ == old(out)@ + frag_group_subtitle(text@),
{
    proof {
        reveal(frag_group_subtitle);
    }
    out.append("<div style=\"font-size:13px;color:#64748b;margin:0 0 14px;line-height:1.55;font-family:-apple-system,BlinkMacSystemFont,'Segoe UI',Roboto,Helvetica,Arial,sans-serif;\">");
    push_escaped(out, text);
    out.append("</div>");
}

/// The spacer of a group card without subtitle.
#[verifier::opaque]
pub open spec fn frag_group_no_subtitle() -> Seq<char> {
    "<div style=\"margin:0 0 14px;\"></div>"@
}

/// Appends: the spacer of a group card without subtitle.
pub fn push_group_no_subtitle(out: &mut String)
    ensures
        final(out)@ == old(out)@ + frag_group_no_subtitle(),
{
    proof {
        reveal(frag_group_no_subtitle);
    }
    out.append("<div style=\"margin:0 0 14px;\"></div>");
}

/// The opening of a field table.
#[verifier::opaque]
pub open spec fn frag_fields_open() -> Seq<char> {
    "<table role=\"presentation\" width=\"100%\" cellpadding=\"0\" cellspacing=\"0\" border=\"0\">"@
}

/// Appends: the opening of a field table.
pub fn push_fields_open(out: &mut String)
    ensures
        final(out)@ == old(out)@ + frag_fields_open(),
{
    proof {
        reveal(frag_fields_open);
    }
    out.append("<table role=\"presentation\" width=\"100%\" cellpadding=\"0\" cellspacing=\"0\" border=\"0\">");
}

/// The tinted how-to footer of a group card (trusted inline HTML).
#[verifier::opaque]
pub open spec fn frag_how_to(how_to: Seq<char>) -> Seq<char> {
    "<div style=\"margin-top:14px;padding:10px 12px;background:#f0f9ff;border-radius:8px;border:1px solid #bae6fd;font-size:12.5px;color:#075985;line-height:1.55;font-family:-apple-system,BlinkMacSystemFont,'Segoe UI',Roboto,Helvetica,Arial,sans-serif;\">"@
        + how_to
        + "</div>"@
}

/// Appends: the tinted how-to footer of a group card (trusted inline HTML).
pub fn push_how_to(out: &mut String, how_to: &str)
    ensures
        final(out)@ == old(out)@ + frag_how_to(how_to@),
{
    proof {
        reveal(frag_how_to);
    }
    out.append("<div style=\"margin-top:14px;padding:10px 12px;background:#f0f9ff;border-radius:8px;border:1px solid #bae6fd;font-size:12.5px;color:#075985;line-height:1.55;font-family:-apple-system,BlinkMacSystemFont,'Segoe UI',Roboto,Helvetica,Arial,sans-serif;\">");
    out.append(how_to);
    out.append("</div>");
}

/// A field value in a monospaced box.
#[verifier::opaque]
pub open spec fn frag_value_mono(text: Seq<char>) -> Seq<char> {
    "<div style=\"font-family:ui-monospace,SFMono-Regular,Menlo,Consolas,monospace;font-size:12.5px;line-height:1.55;color:#0f172a;word-break:break-all;background:#f8fafc;padding:8px 10px;border-radius:6px;border:1px solid #e2e8f0;\">"@
        + html_escaped(text)
        + "</div>"@
}

/// Appends: a field value in a monospaced box.
pub fn push_value_mono(out: &mut String, text: &str)
    ensures
        final(out)@ == old(out)@ + frag_value_mono(text@),
{
    proof {
        reveal(frag_value_mono);
    }
    out.append("<div style=\"font-family:ui-monospace,SFMono-Regular,Menlo,Consolas,monospace;font-size:12.5px;line-height:1.55;color:#0f172a;word-break:break-all;background:#f8fafc;padding:8px 10px;border-radius:6px;border:1px solid #e2e8f0;\">");
    push_escaped(out, text);
    out.append("</div>");
}

/// A plain field value.
#[verifier::opaque]
pub open spec fn frag_value_plain(text: Seq<char>) -> Seq<char> {
    "<div style=\"font-size:13px;color:#334155;font-family:-apple-system,BlinkMacSystemFont,'Segoe UI',Roboto,Helvetica,Arial,sans-serif;\">"@
        + html_escaped(text)
        + "</div>"@
}

/// Appends: a plain field value.
pub fn push_value_plain(out: &mut String, text: &str)
    ensures
        final(out)@ == old(out)@ + frag_value_plain(text@),
{
    proof {
        reveal(frag_value_plain);
    }
    out.append("<div style=\"font-size:13px;color:#334155;font-family:-apple-system,BlinkMacSystemFont,'Segoe UI',Roboto,Helvetica,Arial,sans-serif;\">");
    push_escaped(out, text);
    out.append("</div>");
}

/// A field table row around a rendered value.
#[verifier::opaque]
pub open spec fn frag_field_row(label: Seq<char>, value: Seq<char>) -> Seq<char> {
    "<tr>\n      <td style=\"padding:6px 0;width:30%;font-size:11px;color:#64748b;font-weight:700;letter-spacing:0.06em;text-transform:uppercase;vertical-align:top;font-family:-apple-system,BlinkMacSystemFont,'Segoe UI',Roboto,Helvetica,Arial,sans-serif;\">"@
        + html_escaped(label)
        + "</td>\n      <td style=\"padding:6px 0 14px;\">"@
        + value
        + "</td>\n    </tr>"@
}

/// Appends: a field table row around a rendered value.
pub fn push_field_row(out: &mut String, label: &str, value: &str)
    ensures
        final(out)@ == old(out)@ + frag_field_row(label@, value@),
{
    proof {
        reveal(frag_field_row);
    }
    out.append("<tr>\n      <td style=\"padding:6px 0;width:30%;font-size:11px;color:#64748b;font-weight:700;letter-spacing:0.06em;text-transform:uppercase;vertical-align:top;font-family:-apple-system,BlinkMacSystemFont,'Segoe UI',Roboto,Helvetica,Arial,sans-serif;\">");
    push_escaped(out, label);
    out.append("</td>\n      <td style=\"padding:6px 0 14px;\">");
    out.append(value);
    out.append("</td>\n    </tr>");
}

/// The type tag pill of a record card.
#[verifier::opaque]
pub open spec fn frag_type_pill(text: Seq<char>, t: ThemeV) -> Seq<char> {
    "<span style=\"display:inline-block;font-size:10.5px;font-weight:700;letter-spacing:0.08em;text-transform:uppercase;color:"@
        + t.brand_primary
        + ";background:rgba(13,72,138,0.1);padding:3px 8px;border-radius:5px;margin-left:10px;font-family:ui-monospace,SFMono-Regular,Menlo,Consolas,monospace;vertical-align:middle;\">"@
        + html_escaped(text)
        + "</span>"@
}

/// Appends: the type tag pill of a record card.
pub fn push_type_pill(out: &mut String, text: &str, t: &Theme)
    ensures
        final(out)@ == old(out)@ + frag_type_pill(text@, t@),
{
    proof {
        reveal(frag_type_pill);
    }
    out.append("<span style=\"display:inline-block;font-size:10.5px;font-weight:700;letter-spacing:0.08em;text-transform:uppercase;color:");
    append_string(out, &t.brand_primary);
    out.append(";background:rgba(13,72,138,0.1);padding:3px 8px;border-radius:5px;margin-left:10px;font-family:ui-monospace,SFMono-Regular,Menlo,Consolas,monospace;vertical-align:middle;\">");
    push_escaped(out, text);
    out.append("</span>");
}

/// The note of a record card.
#[verifier::opaque]
pub open spec fn frag_record_note(text: Seq<char>) -> Seq<char> {
    "<div style=\"margin-top:8px;font-size:12px;color:#64748b;line-height:1.55;font-family:-apple-system,BlinkMacSystemFont,'Segoe UI',Roboto,Helvetica,Arial,sans-serif;font-style:italic;\">"@
        + html_escaped(text)
        + "</div>"@
}

/// Appends: the note of a record card.
pub fn push_record_note(out: &mut String, text: &str)
    ensures
        final(out)@ == old(out)@ + frag_record_note(text@),
{
    proof {
        reveal(frag_record_note);
    }
    out.append("<div style=\"margin-top:8px;font-size:12px;color:#64748b;line-height:1.55;font-family:-apple-system,BlinkMacSystemFont,'Segoe UI',Roboto,Helvetica,Arial,sans-serif;font-style:italic;\">");
    push_escaped(out, text);
    out.append("</div>");
}

/// A record card around its rendered type pill and note.
#[verifier::opaque]
pub open spec fn frag_record_card(eyebrow: Seq<char>, primary: Seq<char>, type_pill: Seq<char>, value: Seq<char>, note_html: Seq<char>) -> Seq<char> {
    "<table role=\"presentation\" width=\"100%\" cellpadding=\"0\" cellspacing=\"0\" border=\"0\" style=\"margin:0 0 12px;background:#f8fafc;border:1px solid #e2e8f0;border-radius:10px;\">\n        <tr><td style=\"padding:12px 14px 14px;\">\n          <div style=\"font-size:10px;font-weight:700;letter-spacing:0.14em;text-transform:uppercase;color:#64748b;margin:0 0 6px;font-family:-apple-system,BlinkMacSystemFont,'Segoe UI',Roboto,Helvetica,Arial,sans-serif;\">"@
        + html_escaped(eyebrow)
        + "</div>\n          <div style=\"font-size:14px;font-weight:700;color:#0f172a;font-family:ui-monospace,SFMono-Regular,Menlo,Consolas,monospace;word-break:break-all;line-height:1.4;\">\n            "@
        + html_escaped(primary)
        + type_pill
        + "\n          </div>\n          <div style=\"margin-top:8px;font-family:ui-monospace,SFMono-Regular,Menlo,Consolas,monospace;font-size:12.5px;line-height:1.55;color:#0f172a;word-break:break-all;background:#ffffff;padding:9px 11px;border-radius:6px;border:1px solid #e2e8f0;\">"@
        + html_escaped(value)
        + "</div>\n          "@
        + note_html
        + "\n        </td></tr>\n      </table>"@
}

/// Appends: a record card around its rendered type pill and note.
pub fn push_record_card(out: &mut String, eyebrow: &str, primary: &str, type_pill: &str, value: &str, note_html: &str)
    ensures
        final(out)@ == old(out)@ + frag_record_card(eyebrow@, primary@, type_pill@, value@, note_html@),
{
    proof {
        reveal(frag_record_card);
    }
    out.append("<table role=\"presentation\" width=\"100%\" cellpadding=\"0\" cellspacing=\"0\" border=\"0\" style=\"margin:0 0 12px;background:#f8fafc;border:1px solid #e2e8f0;border-radius:10px;\">\n        <tr><td style=\"padding:12px 14px 14px;\">\n          <div style=\"font-size:10px;font-weight:700;letter-spacing:0.14em;text-transform:uppercase;color:#64748b;margin:0 0 6px;font-family:-apple-system,BlinkMacSystemFont,'Segoe UI',Roboto,Helvetica,Arial,sans-serif;\">");
    push_escaped(out, eyebrow);
    out.append("</div>\n          <div style=\"font-size:14px;font-weight:700;color:#0f172a;font-family:ui-monospace,SFMono-Regular,Menlo,Consolas,monospace;word-break:break-all;line-height:1.4;\">\n            ");
    push_escaped(out, primary);
    out.append(type_pill);
    out.append("\n          </div>\n          <div style=\"margin-top:8px;font-family:ui-monospace,SFMono-Regular,Menlo,Consolas,monospace;font-size:12.5px;line-height:1.55;color:#0f172a;word-break:break-all;background:#ffffff;padding:9px 11px;border-radius:6px;border:1px solid #e2e8f0;\">");
    push_escaped(out, value);
    out.append("</div>\n          ");
    out.append(note_html);
    out.append("\n        </td></tr>\n      </table>");
}

/// The heading above a code block.
#[verifier::opaque]
pub open spec fn frag_code_eyebrow(text: Seq<char>) -> Seq<char> {
    "<h2 style=\"margin:24px 0 10px;font-size:14px;font-weight:700;color:#0f172a;letter-spacing:0.04em;text-transform:uppercase;font-family:-apple-system,BlinkMacSystemFont,'Segoe UI',Roboto,Helvetica,Arial,sans-serif;\">"@
        + html_escaped(text)
        + "</h2>"@
}

/// Appends: the heading above a code block.
pub fn push_code_eyebrow(out: &mut String, text: &str)
    ensures
        final(out)@ == old(out)@ + frag_code_eyebrow(text@),
{
    proof {
        reveal(frag_code_eyebrow);
    }
    out.append("<h2 style=\"margin:24px 0 10px;font-size:14px;font-weight:700;color:#0f172a;letter-spacing:0.04em;text-transform:uppercase;font-family:-apple-system,BlinkMacSystemFont,'Segoe UI',Roboto,Helvetica,Arial,sans-serif;\">");
    push_escaped(out, text);
    out.append("</h2>");
}

/// The opening of a code block.
#[verifier::opaque]
pub open spec fn frag_code_open() -> Seq<char> {
    "<div style=\"font-family:ui-monospace,SFMono-Regular,Menlo,Consolas,monospace;font-size:12.5px;line-height:1.7;color:#0f172a;background:#f8fafc;padding:14px 16px;border-radius:8px;border:1px solid #e2e8f0;margin:0 0 18px;white-space:pre-wrap;\">"@
}

/// Appends: the opening of a code block.
pub fn push_code_open(out: &mut String)
    ensures
        final(out)@ == old(out)@ + frag_code_open(),
{
    proof {
        reveal(frag_code_open);
    }
    out.append("<div style=\"font-family:ui-monospace,SFMono-Regular,Menlo,Consolas,monospace;font-size:12.5px;line-height:1.7;color:#0f172a;background:#f8fafc;padding:14px 16px;border-radius:8px;border:1px solid #e2e8f0;margin:0 0 18px;white-space:pre-wrap;\">");
}

/// A call-to-action button.
#[verifier::opaque]
pub open spec fn frag_cta(href: Seq<char>, label: Seq<char>, t: ThemeV) -> Seq<char> {
    "<table role=\"presentation\" cellpadding=\"0\" cellspacing=\"0\" border=\"0\" style=\"margin:8px 0 18px;\">\n  <tr><td>\n    <a href=\""@
        + html_escaped(href)
        + "\" style=\"display:inline-block;padding:13px 28px;background:"@
        + t.brand_primary
        + ";color:#ffffff;font-size:14.5px;font-weight:600;text-decoration:none;border-radius:10px;letter-spacing:0.01em;box-shadow:0 1px 2px rgba(13,72,138,0.25),0 4px 14px rgba(13,72,138,0.18);font-family:-apple-system,BlinkMacSystemFont,'Segoe UI',Roboto,Helvetica,Arial,sans-serif;\">"@
        + html_escaped(label)
        + "</a>\n  </td></tr>\n</table>"@
}

/// Appends: a call-to-action button.
pub fn push_cta(out: &mut String, href: &str, label: &str, t: &Theme)
    ensures
        final(out)@ == old(out)@ + frag_cta(href@, label@, t@),
{
    proof {
        reveal(frag_cta);
    }
    out.append("<table role=\"presentation\" cellpadding=\"0\" cellspacing=\"0\" border=\"0\" style=\"margin:8px 0 18px;\">\n  <tr><td>\n    <a href=\"");
    push_escaped(out, href);
    out.append("\" style=\"display:inline-block;padding:13px 28px;background:");
    append_string(out, &t.brand_primary);
    out.append(";color:#ffffff;font-size:14.5px;font-weight:600;text-decoration:none;border-radius:10px;letter-spacing:0.01em;box-shadow:0 1px 2px rgba(13,72,138,0.25),0 4px 14px rgba(13,72,138,0.18);font-family:-apple-system,BlinkMacSystemFont,'Segoe UI',Roboto,Helvetica,Arial,sans-serif;\">");
    push_escaped(out, label);
    out.append("</a>\n  </td></tr>\n</table>");
}


/// The page holds its body as it is: what occurs in the body occurs in the
/// page.
proof fn lemma_page_text_holds_inner(
    title: Seq<char>,
    preheader: Seq<char>,
    inner: Seq<char>,
    brand_navy: Seq<char>,
    brand_primary: Seq<char>,
    brand_accent: Seq<char>,
    monogram: Seq<char>,
    brand_name: Seq<char>,
    brand_suffix: Seq<char>,
    tagline: Seq<char>,
    legal_name: Seq<char>,
    location: Seq<char>,
    website: Seq<char>,
    contact_email: Seq<char>,
    b: Seq<char>,
)
    requires
        has_sub(inner, b),
    ensures
        has_sub(frag_page_text(title, preheader, inner, brand_navy, brand_primary, brand_accent, monogram, brand_name, brand_suffix, tagline, legal_name, location, website, contact_email), b),
{
    reveal(frag_page_text);
    let pre = "<!DOCTYPE html>\n<html lang=\"en\">\n<head>\n<meta charset=\"utf-8\">\n<meta name=\"viewport\" content=\"width=device-width,initial-scale=1\">\n<meta name=\"color-scheme\" content=\"light only\">\n<meta name=\"supported-color-schemes\" content=\"light only\">\n<title>"@
        + html_escaped(title)
        + "</title>\n</head>\n<body style=\"margin:0;padding:0;background:#f8fafc;font-family:-apple-system,BlinkMacSystemFont,'Segoe UI',Roboto,Helvetica,Arial,sans-serif;color:#334155;-webkit-font-smoothing:antialiased;line-height:1.5;\">\n<div style=\"display:none;max-height:0;overflow:hidden;mso-hide:all;font-size:1px;color:#f8fafc;\">"@
        + html_escaped(preheader)
        + "</div>\n<table role=\"presentation\" width=\"100%\" cellpadding=\"0\" cellspacing=\"0\" border=\"0\" style=\"background:#f8fafc;\">\n  <tr><td align=\"center\" style=\"padding:40px 16px;\">\n    <table role=\"presentation\" width=\"640\" cellpadding=\"0\" cellspacing=\"0\" border=\"0\" style=\"max-width:640px;background:#ffffff;border:1px solid #e2e8f0;border-radius:14px;overflow:hidden;box-shadow:0 1px 3px rgba(15,23,42,0.04),0 8px 24px rgba(15,23,42,0.06);\">\n      <tr><td style=\"background:linear-gradient(135deg,"@
        + brand_navy
        + " 0%,"@
        + brand_primary
        + " 60%,"@
        + brand_accent
        + " 100%);padding:28px 36px;color:#ffffff;\">\n        <table cellpadding=\"0\" cellspacing=\"0\" border=\"0\">\n          <tr>\n            <td style=\"vertical-align:middle;padding-right:14px;\">\n              <span style=\"display:inline-block;width:36px;height:36px;background:rgba(255,255,255,0.18);border:1px solid rgba(255,255,255,0.35);border-radius:9px;text-align:center;line-height:36px;font-size:16px;font-weight:800;color:#ffffff;letter-spacing:-0.02em;font-family:-apple-system,BlinkMacSystemFont,'Segoe UI',Roboto,Helvetica,Arial,sans-serif;\">"@
        + monogram
        + "</span>\n            </td>\n            <td style=\"vertical-align:middle;font-family:-apple-system,BlinkMacSystemFont,'Segoe UI',Roboto,Helvetica,Arial,sans-serif;\">\n              <div style=\"font-size:18px;font-weight:700;letter-spacing:-0.01em;color:#ffffff;\">"@
        + brand_name
        + " <span style=\"color:rgba(255,255,255,0.78);font-weight:500;\">"@
        + brand_suffix
        + "</span></div>\n              <div style=\"font-size:12px;font-weight:500;color:rgba(255,255,255,0.72);letter-spacing:0.04em;text-transform:uppercase;margin-top:2px;\">"@
        + tagline
        + "</div>\n            </td>\n          </tr>\n        </table>\n      </td></tr>\n      <tr><td style=\"padding:32px 36px 28px;\">\n        "@;
    let post = "\n      </td></tr>\n      <tr><td style=\"background:#f8fafc;padding:22px 36px;border-top:1px solid #e2e8f0;\">\n        <p style=\"margin:0;font-size:12px;line-height:1.7;color:#64748b;font-family:-apple-system,BlinkMacSystemFont,'Segoe UI',Roboto,Helvetica,Arial,sans-serif;\">\n          <strong style=\"color:#334155;font-weight:600;\">"@
        + legal_name
        + "</strong> &nbsp;·&nbsp; "@
        + location
        + "<br>\n          <a href=\"https://"@
        + website
        + "\" style=\"color:"@
        + brand_primary
        + ";text-decoration:none;font-weight:600;\">"@
        + website
        + "</a> &nbsp;·&nbsp; <a href=\"mailto:"@
        + contact_email
        + "\" style=\"color:"@
        + brand_primary
        + ";text-decoration:none;font-weight:600;\">"@
        + contact_email
        + "</a>\n        </p>\n      </td></tr>\n    </table>\n    <p style=\"margin:16px 0 0;font-size:11px;color:#64748b;text-align:center;letter-spacing:0.02em;font-family:-apple-system,BlinkMacSystemFont,'Segoe UI',Roboto,Helvetica,Arial,sans-serif;\">\n      Automated message — replies go to a real human.\n    </p>\n  </td></tr>\n</table>\n</body>\n</html>\n"@;
    assert(frag_page_text(title, preheader, inner, brand_navy, brand_primary, brand_accent, monogram, brand_name, brand_suffix, tagline, legal_name, location, website, contact_email) =~= pre + inner + post);
    lemma_sub_within(pre, inner, post, b);
}

/// The page holds its body as it is.
pub proof fn lemma_page_holds_inner(title: Seq<char>, preheader: Seq<char>, inner: Seq<char>, t: ThemeV, b: Seq<char>)
    requires
        has_sub(inner, b),
    ensures
        has_sub(frag_page(title, preheader, inner, t), b),
{
    lemma_page_text_holds_inner(title, preheader, inner, t.brand_navy, t.brand_primary, t.brand_accent, t.monogram, t.brand_name, t.brand_suffix, t.tagline, t.legal_name, t.location, t.website, t.contact_email, b);
}

} // verus!
