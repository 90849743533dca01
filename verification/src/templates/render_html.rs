//! The HTML body of a document: the themed page around the headline,
//! intro, blocks and footer lines. All user text is escaped except a
//! card's how-to, which carries trusted inline HTML.
use vstd::prelude::*;
use crate::templates::document::{
    Block, CodeBlock, Cta, EmailDocument, Field, GroupBody, GroupCard, RecordCard,
};
use crate::templates::escape::{html_escaped, push_escaped};
use crate::templates::fragments::{frag_code_eyebrow, frag_code_open, frag_cta, frag_doc_eyebrow, frag_doc_heading, frag_doc_intro, frag_field_row, frag_fields_open, frag_footer_line, frag_footer_open, frag_group_head, frag_group_no_subtitle, frag_group_subtitle, frag_how_to, frag_page, frag_paragraph, frag_record_card, frag_record_note, frag_section_heading, frag_type_pill, frag_value_mono, frag_value_plain, push_code_eyebrow, push_code_open, push_cta, push_doc_eyebrow, push_doc_heading, push_doc_intro, push_field_row as push_field_row_html, push_fields_open, push_footer_line, push_footer_open, push_group_head, push_group_no_subtitle, push_group_subtitle, push_how_to, push_page, push_paragraph, push_record_card, push_record_note, push_section_heading, push_type_pill, push_value_mono, push_value_plain};
use crate::templates::fragments::lemma_page_holds_inner;
use crate::templates::theme::{Theme, ThemeV, plausiden_theme};
use crate::text::{has_sub, lemma_sub_self, lemma_sub_within};

verus! {

/// The rendered value cell of a field.
pub open spec fn html_field_value(f: Field) -> Seq<char> {
    if f.mono {
        frag_value_mono(f.value@)
    } else {
        frag_value_plain(f.value@)
    }
}

/// The rows of a field table.
pub open spec fn html_field_rows(fs: Seq<Field>) -> Seq<char>
    decreases fs.len(),
{
    if fs.len() == 0 {
        seq![]
    } else {
        html_field_rows(fs.drop_last()) + frag_field_row(
            fs.last().label@,
            html_field_value(fs.last()),
        )
    }
}

/// The type pill of a record, if it has a type tag.
pub open spec fn html_type_pill(r: RecordCard, t: ThemeV) -> Seq<char> {
    match r.type_tag {
        Some(tag) => frag_type_pill(tag@, t),
        None => seq![],
    }
}

/// The note of a record, if it has one.
pub open spec fn html_record_note(r: RecordCard) -> Seq<char> {
    match r.note {
        Some(n) => frag_record_note(n@),
        None => seq![],
    }
}

/// One record card.
pub open spec fn html_record(r: RecordCard, t: ThemeV) -> Seq<char> {
    frag_record_card(
        r.eyebrow@,
        r.primary_label@,
        html_type_pill(r, t),
        r.value@,
        html_record_note(r),
    )
}

/// The record cards of a card body.
pub open spec fn html_records(rs: Seq<RecordCard>, t: ThemeV) -> Seq<char>
    decreases rs.len(),
{
    if rs.len() == 0 {
        seq![]
    } else {
        html_records(rs.drop_last(), t) + html_record(rs.last(), t)
    }
}

/// A card.
pub open spec fn html_group(g: GroupCard, t: ThemeV) -> Seq<char> {
    frag_group_head(g.eyebrow@, g.title@, t) + (match g.subtitle {
        Some(sub) => frag_group_subtitle(sub@),
        None => frag_group_no_subtitle(),
    }) + (match g.body {
        GroupBody::Fields { fields } => frag_fields_open() + html_field_rows(fields@) + "</table>"@,
        GroupBody::Records { records } => html_records(records@, t),
    }) + (match g.how_to {
        Some(h) => frag_how_to(h@),
        None => seq![],
    }) + "</td></tr></table>"@
}

/// The escaped lines of a code block, separated by `<br>`.
pub open spec fn html_code_lines(ls: Seq<String>) -> Seq<char>
    decreases ls.len(),
{
    if ls.len() == 0 {
        seq![]
    } else if ls.len() == 1 {
        html_escaped(ls[0]@)
    } else {
        html_code_lines(ls.drop_last()) + "<br>"@ + html_escaped(ls.last()@)
    }
}

/// A code block.
pub open spec fn html_code(c: CodeBlock) -> Seq<char> {
    (match c.eyebrow {
        Some(e) => frag_code_eyebrow(e@),
        None => seq![],
    }) + frag_code_open() + html_code_lines(c.lines@) + "</div>"@
}

/// One block.
pub open spec fn html_block(b: Block, t: ThemeV) -> Seq<char> {
    match b {
        Block::Group(g) => html_group(g, t),
        Block::SectionHeading { text } => frag_section_heading(text@),
        Block::Paragraph { text } => frag_paragraph(text@),
        Block::Code(c) => html_code(c),
        Block::Cta(c) => frag_cta(c.href@, c.label@, t),
    }
}

/// The blocks, in order.
pub open spec fn html_blocks(bs: Seq<Block>, t: ThemeV) -> Seq<char>
    decreases bs.len(),
{
    if bs.len() == 0 {
        seq![]
    } else {
        html_blocks(bs.drop_last(), t) + html_block(bs.last(), t)
    }
}

/// The footer lines.
pub open spec fn html_footer_lines(ls: Seq<String>) -> Seq<char>
    decreases ls.len(),
{
    if ls.len() == 0 {
        seq![]
    } else {
        html_footer_lines(ls.drop_last()) + frag_footer_line(ls.last()@)
    }
}

/// The body inside the page: eyebrow, headline, intro, blocks, footer.
pub open spec fn html_inner(d: EmailDocument, t: ThemeV) -> Seq<char> {
    (match d.eyebrow {
        Some(e) => frag_doc_eyebrow(e@, t),
        None => seq![],
    }) + frag_doc_heading(d.heading@) + (match d.intro {
        Some(i) => frag_doc_intro(i@),
        None => seq![],
    }) + html_blocks(d.blocks@, t) + (if d.footer_lines@.len() > 0 {
        frag_footer_open() + html_footer_lines(d.footer_lines@) + "</div>"@
    } else {
        seq![]
    })
}

/// The complete HTML body of a document under a theme.
pub open spec fn html_document(d: EmailDocument, t: ThemeV) -> Seq<char> {
    frag_page(d.subject@, d.preheader@, html_inner(d, t), t)
}

fn push_field_row(out: &mut String, f: &Field)
    ensures
        final(out)@ == old(out)@ + frag_field_row(f.label@, html_field_value(*f)),
{
    let mut value = String::new();
    if f.mono {
        push_value_mono(&mut value, f.value.as_str());
    } else {
        push_value_plain(&mut value, f.value.as_str());
    }
    push_field_row_frag(out, f.label.as_str(), value.as_str());
}

fn push_field_row_frag(out: &mut String, label: &str, value: &str)
    ensures
        final(out)@ == old(out)@ + frag_field_row(label@, value@),
{
    push_field_row_html(out, label, value);
}

fn push_record(out: &mut String, r: &RecordCard, t: &Theme)
    ensures
        final(out)@ == old(out)@ + html_record(*r, t@),
{
    let mut pill = String::new();
    match &r.type_tag {
        Some(tag) => push_type_pill(&mut pill, tag.as_str(), t),
        None => {},
    }
    let mut note = String::new();
    match &r.note {
        Some(n) => push_record_note(&mut note, n.as_str()),
        None => {},
    }
    push_record_card(
        out,
        r.eyebrow.as_str(),
        r.primary_label.as_str(),
        pill.as_str(),
        r.value.as_str(),
        note.as_str(),
    );
}

fn push_group(out: &mut String, g: &GroupCard, t: &Theme)
    ensures
        final(out)@ == old(out)@ + html_group(*g, t@),
{
    let ghost start = out@;
    push_group_head(out, g.eyebrow.as_str(), g.title.as_str(), t);
    match &g.subtitle {
        Some(sub) => push_group_subtitle(out, sub.as_str()),
        None => push_group_no_subtitle(out),
    }
    match &g.body {
        GroupBody::Fields { fields } => {
            push_fields_open(out);
            let ghost mid = out@;
            let mut i: usize = 0;
            while i < fields.len()
                invariant
                    i <= fields@.len(),
                    out@ == mid + html_field_rows(fields@.take(i as int)),
                decreases fields.len() - i,
            {
                push_field_row(out, &fields[i]);
                assert(fields@.take(i + 1).drop_last() =~= fields@.take(i as int));
                i = i + 1;
            }
            assert(fields@.take(fields@.len() as int) =~= fields@);
            out.append("</table>");
        },
        GroupBody::Records { records } => {
            let ghost mid = out@;
            let mut i: usize = 0;
            while i < records.len()
                invariant
                    i <= records@.len(),
                    out@ == mid + html_records(records@.take(i as int), t@),
                decreases records.len() - i,
            {
                push_record(out, &records[i], t);
                assert(records@.take(i + 1).drop_last() =~= records@.take(i as int));
                i = i + 1;
            }
            assert(records@.take(records@.len() as int) =~= records@);
        },
    }
    match &g.how_to {
        Some(h) => push_how_to(out, h.as_str()),
        None => {},
    }
    out.append("</td></tr></table>");
}

fn push_code(out: &mut String, c: &CodeBlock)
    ensures
        final(out)@ == old(out)@ + html_code(*c),
{
    match &c.eyebrow {
        Some(e) => push_code_eyebrow(out, e.as_str()),
        None => {},
    }
    push_code_open(out);
    let ghost mid = out@;
    let mut i: usize = 0;
    while i < c.lines.len()
        invariant
            i <= c.lines@.len(),
            out@ == mid + html_code_lines(c.lines@.take(i as int)),
        decreases c.lines.len() - i,
    {
        if i > 0 {
            out.append("<br>");
        }
        push_escaped(out, c.lines[i].as_str());
        assert(c.lines@.take(i + 1).drop_last() =~= c.lines@.take(i as int));
        i = i + 1;
    }
    assert(c.lines@.take(c.lines@.len() as int) =~= c.lines@);
    out.append("</div>");
}

fn push_block(out: &mut String, b: &Block, t: &Theme)
    ensures
        final(out)@ == old(out)@ + html_block(*b, t@),
{
    match b {
        Block::Group(g) => push_group(out, g, t),
        Block::SectionHeading { text } => push_section_heading(out, text.as_str()),
        Block::Paragraph { text } => push_paragraph(out, text.as_str()),
        Block::Code(c) => push_code(out, c),
        Block::Cta(c) => push_cta(out, c.href.as_str(), c.label.as_str(), t),
    }
}

/// The body inside the page.
fn render_inner(doc: &EmailDocument, theme: &Theme) -> (r: String)
    ensures
        r@ == html_inner(*doc, theme@),
{
    let mut inner = String::new();
    match &doc.eyebrow {
        Some(e) => push_doc_eyebrow(&mut inner, e.as_str(), theme),
        None => {},
    }
    push_doc_heading(&mut inner, doc.heading.as_str());
    match &doc.intro {
        Some(i) => push_doc_intro(&mut inner, i.as_str()),
        None => {},
    }
    let ghost mid = inner@;
    let mut i: usize = 0;
    while i < doc.blocks.len()
        invariant
            i <= doc.blocks@.len(),
            inner@ == mid + html_blocks(doc.blocks@.take(i as int), theme@),
        decreases doc.blocks.len() - i,
    {
        push_block(&mut inner, &doc.blocks[i], theme);
        assert(doc.blocks@.take(i + 1).drop_last() =~= doc.blocks@.take(i as int));
        i = i + 1;
    }
    assert(doc.blocks@.take(doc.blocks@.len() as int) =~= doc.blocks@);
    if doc.footer_lines.len() > 0 {
        push_footer_open(&mut inner);
        let ghost fmid = inner@;
        let mut k: usize = 0;
        while k < doc.footer_lines.len()
            invariant
                k <= doc.footer_lines@.len(),
                inner@ == fmid + html_footer_lines(doc.footer_lines@.take(k as int)),
            decreases doc.footer_lines.len() - k,
        {
            push_footer_line(&mut inner, doc.footer_lines[k].as_str());
            assert(doc.footer_lines@.take(k + 1).drop_last() =~= doc.footer_lines@.take(
                k as int,
            ));
            k = k + 1;
        }
        assert(doc.footer_lines@.take(doc.footer_lines@.len() as int) =~= doc.footer_lines@);
        inner.append("</div>");
    }
    assert(inner@ =~= html_inner(*doc, theme@));
    inner
}

/// The complete HTML body of a document under a theme.
pub fn render(doc: &EmailDocument, theme: &Theme) -> (r: String)
    ensures
        r@ == html_document(*doc, theme@),
{
    let inner = render_inner(doc, theme);
    let mut out = String::new();
    push_page(&mut out, doc.subject.as_str(), doc.preheader.as_str(), inner.as_str(), theme);
    out
}

impl EmailDocument {
    /// The HTML body under the default PlausiDen theme.
    pub fn render_html(&self) -> (r: String)
        ensures
            r@ == html_document(*self, plausiden_theme()),
    {
        let t = Theme::plausiden();
        render(self, &t)
    }

    /// The HTML body under an explicit theme.
    pub fn render_html_with_theme(&self, theme: &Theme) -> (r: String)
        ensures
            r@ == html_document(*self, theme@),
    {
        render(self, theme)
    }
}


// ----- calls to action ---------------------------------------------------

proof fn lemma_html_blocks_hold(bs: Seq<Block>, t: ThemeV, i: int, b: Seq<char>)
    requires
        0 <= i < bs.len(),
        has_sub(html_block(bs[i], t), b),
    ensures
        has_sub(html_blocks(bs, t), b),
    decreases bs.len(),
{
    if i == bs.len() - 1 {
        assert(html_blocks(bs, t) =~= html_blocks(bs.drop_last(), t) + html_block(bs[i], t) + Seq::<char>::empty());
        lemma_sub_within(html_blocks(bs.drop_last(), t), html_block(bs[i], t), Seq::<char>::empty(), b);
    } else {
        assert(bs.drop_last()[i] == bs[i]);
        lemma_html_blocks_hold(bs.drop_last(), t, i, b);
        assert(html_blocks(bs, t) =~= Seq::<char>::empty() + html_blocks(bs.drop_last(), t) + html_block(bs.last(), t));
        lemma_sub_within(Seq::<char>::empty(), html_blocks(bs.drop_last(), t), html_block(bs.last(), t), b);
    }
}

/// Every call to action of a document is a link in its HTML body: the page
/// holds `<a href="…"` with the action's target, HTML-escaped, and the
/// escaped label, whatever the theme.
pub proof fn law_html_keeps_cta_links(d: EmailDocument, t: ThemeV, i: int)
    requires
        0 <= i < d.blocks@.len(),
        d.blocks@[i] is Cta,
    ensures
        has_sub(html_document(d, t), "<a href=\""@ + html_escaped(d.blocks@[i]->Cta_0.href@) + "\""@),
        has_sub(html_document(d, t), html_escaped(d.blocks@[i]->Cta_0.label@)),
{
    let c = d.blocks@[i]->Cta_0;
    let link = "<a href=\""@ + html_escaped(c.href@) + "\""@;
    let lab = html_escaped(c.label@);
    reveal(frag_cta);
    reveal_strlit("<a href=\"");
    reveal_strlit("\"");
    let fc = frag_cta(c.href@, c.label@, t);
    let p1 = "<table role=\"presentation\" cellpadding=\"0\" cellspacing=\"0\" border=\"0\" style=\"margin:8px 0 18px;\">\n  <tr><td>\n    "@;
    let open = "<table role=\"presentation\" cellpadding=\"0\" cellspacing=\"0\" border=\"0\" style=\"margin:8px 0 18px;\">\n  <tr><td>\n    <a href=\""@;
    let mid = "\" style=\"display:inline-block;padding:13px 28px;background:"@;
    reveal_strlit("<table role=\"presentation\" cellpadding=\"0\" cellspacing=\"0\" border=\"0\" style=\"margin:8px 0 18px;\">\n  <tr><td>\n    <a href=\"");
    reveal_strlit("<table role=\"presentation\" cellpadding=\"0\" cellspacing=\"0\" border=\"0\" style=\"margin:8px 0 18px;\">\n  <tr><td>\n    ");
    reveal_strlit("\" style=\"display:inline-block;padding:13px 28px;background:");
    assert(open =~= p1 + "<a href=\""@);
    assert(mid =~= "\""@ + mid.drop_first());
    let rest = fc.skip((p1 + link).len() as int);
    assert(fc =~= p1 + link + rest);
    lemma_sub_self(link);
    lemma_sub_within(p1, link, rest, link);
    let before = open + html_escaped(c.href@) + mid + t.brand_primary
        + ";color:#ffffff;font-size:14.5px;font-weight:600;text-decoration:none;border-radius:10px;letter-spacing:0.01em;box-shadow:0 1px 2px rgba(13,72,138,0.25),0 4px 14px rgba(13,72,138,0.18);font-family:-apple-system,BlinkMacSystemFont,'Segoe UI',Roboto,Helvetica,Arial,sans-serif;\">"@;
    let after = "</a>\n  </td></tr>\n</table>"@;
    assert(fc =~= before + lab + after);
    lemma_sub_self(lab);
    lemma_sub_within(before, lab, after, lab);
    lemma_html_blocks_hold(d.blocks@, t, i, link);
    lemma_html_blocks_hold(d.blocks@, t, i, lab);
    let ipre = (match d.eyebrow {
        Some(e) => frag_doc_eyebrow(e@, t),
        None => seq![],
    }) + frag_doc_heading(d.heading@) + (match d.intro {
        Some(x) => frag_doc_intro(x@),
        None => seq![],
    });
    let ipost = if d.footer_lines@.len() > 0 {
        frag_footer_open() + html_footer_lines(d.footer_lines@) + "</div>"@
    } else {
        seq![]
    };
    let inner = html_inner(d, t);
    assert(inner =~= ipre + html_blocks(d.blocks@, t) + ipost);
    lemma_sub_within(ipre, html_blocks(d.blocks@, t), ipost, link);
    lemma_sub_within(ipre, html_blocks(d.blocks@, t), ipost, lab);
    lemma_page_holds_inner(d.subject@, d.preheader@, inner, t, link);
    lemma_page_holds_inner(d.subject@, d.preheader@, inner, t, lab);
}

} // verus!
