//! The `text/plain` alternative: prose wrapped at 78 columns, code kept
//! verbatim, hierarchy kept with blank lines and rule lines.
use vstd::prelude::*;
use crate::templates::document::{
    Block, CodeBlock, Cta, EmailDocument, Field, GroupBody, GroupCard, RecordCard,
};
use crate::text::{
    append_chars, append_string, chars_of, lines, lines_of, push_char, split_all,
    split_all_chars, views, words, words_of, has_sub, lemma_sub_within, occurs_at,
};

verus! {

/// Prose width of the plain-text rendering.
pub const WRAP: usize = 78;

// ----- wrapping ------------------------------------------------------

/// Greedy filling of words into lines of at most `width` columns (a word
/// longer than the width gets a line of its own): the text and the length
/// of its last line.
pub open spec fn fill(ws: Seq<Seq<char>>, width: nat) -> (Seq<char>, nat)
    decreases ws.len(),
{
    if ws.len() == 0 {
        (seq![], 0)
    } else if ws.len() == 1 {
        (ws[0], ws[0].len())
    } else {
        let (text, len) = fill(ws.drop_last(), width);
        let w = ws.last();
        if len + 1 + w.len() > width {
            (text + "\n"@ + w, w.len())
        } else {
            (text + " "@ + w, len + 1 + w.len())
        }
    }
}

/// One paragraph, filled.
pub open spec fn wrap_paragraph(p: Seq<char>, width: nat) -> Seq<char> {
    fill(words(p), width).0
}

/// Paragraphs filled and joined with newlines.
pub open spec fn wrap_paragraphs(ps: Seq<Seq<char>>, width: nat) -> Seq<char>
    decreases ps.len(),
{
    if ps.len() == 0 {
        seq![]
    } else if ps.len() == 1 {
        wrap_paragraph(ps[0], width)
    } else {
        wrap_paragraphs(ps.drop_last(), width) + "\n"@ + wrap_paragraph(ps.last(), width)
    }
}

/// `s` hard-wrapped at `width`, breaking on whitespace; every paragraph
/// (a piece between newlines) is filled on its own, and words longer than
/// the width are kept whole.
pub open spec fn wrapped(s: Seq<char>, width: nat) -> Seq<char> {
    wrap_paragraphs(split_all(s, '\n'), width)
}

/// Appends one paragraph, filled.
fn push_wrapped_paragraph(out: &mut String, p: &[char], width: usize)
    ensures
        final(out)@ == old(out)@ + wrap_paragraph(p@, width as nat),
{
    let ws = words_of(p);
    let ghost wv = views(ws@);
    let ghost start = out@;
    let mut line_len: usize = 0;
    let mut i: usize = 0;
    while i < ws.len()
        invariant
            i <= ws@.len(),
            wv == views(ws@),
            wv == words(p@),
            out@ == start + fill(wv.take(i as int), width as nat).0,
            line_len == fill(wv.take(i as int), width as nat).1,
        decreases ws.len() - i,
    {
        let w = &ws[i];
        assert(wv[i as int] == w@);
        assert(wv.take(i + 1).drop_last() =~= wv.take(i as int));
        let word_len = w.len();
        let ghost prev = out@;
        if i == 0 {
            assert(wv.take(1)[0] == w@);
            line_len = word_len;
            append_chars(out, w);
            assert(out@ =~= start + fill(wv.take(1), width as nat).0);
        } else if word_len >= width || line_len >= width - word_len {
            out.append("\n");
            line_len = word_len;
            append_chars(out, w);
            assert(out@ =~= start + fill(wv.take(i + 1), width as nat).0);
        } else {
            out.append(" ");
            line_len = line_len + 1 + word_len;
            append_chars(out, w);
            assert(out@ =~= start + fill(wv.take(i + 1), width as nat).0);
        }
        i = i + 1;
    }
    assert(wv.take(wv.len() as int) =~= wv);
}

/// Hard-wraps `s` at `width` (see `wrapped`).
pub fn wrap(s: &str, width: usize) -> (r: String)
    ensures
        r@ == wrapped(s@, width as nat),
{
    let v = chars_of(s);
    let ps = split_all_chars(&v, '\n');
    let ghost pv = views(ps@);
    let mut out = String::new();
    let mut i: usize = 0;
    while i < ps.len()
        invariant
            i <= ps@.len(),
            pv == views(ps@),
            pv == split_all(s@, '\n'),
            out@ == wrap_paragraphs(pv.take(i as int), width as nat),
        decreases ps.len() - i,
    {
        assert(pv[i as int] == ps@[i as int]@);
        assert(pv.take(i + 1).drop_last() =~= pv.take(i as int));
        if i > 0 {
            out.append("\n");
            push_wrapped_paragraph(&mut out, &ps[i], width);
        } else {
            assert(pv.take(1)[0] == ps@[0]@);
            push_wrapped_paragraph(&mut out, &ps[i], width);
            assert(out@ =~= wrap_paragraphs(pv.take(1), width as nat));
        }
        i = i + 1;
    }
    assert(pv.take(pv.len() as int) =~= pv);
    out
}

// ----- tag stripping -------------------------------------------------

/// Tag stripping as a scan: the kept text and whether the scan is inside
/// a tag. `<` opens a tag, `>` closes an open one, text outside tags is
/// kept.
pub open spec fn strip_scan(s: Seq<char>) -> (Seq<char>, bool)
    decreases s.len(),
{
    if s.len() == 0 {
        (seq![], false)
    } else {
        let (kept, in_tag) = strip_scan(s.drop_last());
        let c = s.last();
        if c == '<' {
            (kept, true)
        } else if c == '>' && in_tag {
            (kept, false)
        } else if !in_tag {
            (kept.push(c), false)
        } else {
            (kept, true)
        }
    }
}

/// `s` without its inline HTML tags.
pub open spec fn stripped(s: Seq<char>) -> Seq<char> {
    strip_scan(s).0
}

/// Removes inline HTML tags (such as `<code>`) from a how-to line.
pub fn strip_tags(s: &str) -> (r: String)
    ensures
        r@ == stripped(s@),
{
    let v = chars_of(s);
    let mut out = String::new();
    let mut in_tag = false;
    let mut i: usize = 0;
    while i < v.len()
        invariant
            i <= v@.len(),
            v@ == s@,
            (out@, in_tag) == strip_scan(v@.take(i as int)),
        decreases v.len() - i,
    {
        let c = v[i];
        assert(v@.take(i + 1).drop_last() =~= v@.take(i as int));
        if c == '<' {
            in_tag = true;
        } else if c == '>' && in_tag {
            in_tag = false;
        } else if !in_tag {
            push_char(&mut out, c);
        }
        i = i + 1;
    }
    assert(v@.take(v@.len() as int) =~= v@);
    out
}

// ----- the document --------------------------------------------------

/// `n` copies of `c`.
pub open spec fn repeat(c: char, n: nat) -> Seq<char> {
    Seq::new(n, |i: int| c)
}

/// `n` clamped into `lo..=60`, the length of a rule under a heading.
pub open spec fn rule_len(n: nat, lo: nat) -> nat {
    let m = if n < 60 {
        n
    } else {
        60
    };
    if m < lo {
        lo
    } else {
        m
    }
}

/// Each line prefixed and ended by a newline.
pub open spec fn prefixed_lines(ls: Seq<Seq<char>>, prefix: Seq<char>) -> Seq<char>
    decreases ls.len(),
{
    if ls.len() == 0 {
        seq![]
    } else {
        prefixed_lines(ls.drop_last(), prefix) + prefix + ls.last() + "\n"@
    }
}

/// A field: `label: value`, wrapped at 78 columns under a two-space
/// indent; a monospace field (a key, a record value) stays on one line so
/// that it can be copied as it is.
pub open spec fn plain_field(f: Field) -> Seq<char> {
    if f.mono {
        "  "@ + f.label@ + ": "@ + f.value@ + "\n"@
    } else {
        prefixed_lines(lines(wrapped(f.label@ + ": "@ + f.value@, 76)), "  "@)
    }
}

/// The field lines.
pub open spec fn plain_fields(fs: Seq<Field>) -> Seq<char>
    decreases fs.len(),
{
    if fs.len() == 0 {
        seq![]
    } else {
        plain_fields(fs.drop_last()) + plain_field(fs.last())
    }
}

/// A record: its heading line, its value lines, its wrapped note.
pub open spec fn plain_record(r: RecordCard) -> Seq<char> {
    "  "@ + r.eyebrow@ + " · "@ + r.primary_label@ + (match r.type_tag {
        Some(t) => " ["@ + t@ + "]"@,
        None => seq![],
    }) + "\n"@ + prefixed_lines(lines(r.value@), "    "@) + (match r.note {
        Some(n) => prefixed_lines(lines(wrapped(n@, 72)), "      ↳ "@),
        None => seq![],
    })
}

/// The records, separated by blank lines.
pub open spec fn plain_records(rs: Seq<RecordCard>) -> Seq<char>
    decreases rs.len(),
{
    if rs.len() == 0 {
        seq![]
    } else if rs.len() == 1 {
        plain_record(rs[0])
    } else {
        plain_records(rs.drop_last()) + "\n"@ + plain_record(rs.last())
    }
}

/// A card.
pub open spec fn plain_group(g: GroupCard) -> Seq<char> {
    plain_group_head(g) + plain_group_body(g.body) + plain_group_how_to(g.how_to) + "\n"@
}

/// A code block: its heading, then each line after `  $ `.
pub open spec fn plain_code(c: CodeBlock) -> Seq<char> {
    (match c.eyebrow {
        Some(e) => "["@ + e@ + "]\n"@,
        None => seq![],
    }) + prefixed_lines(c.lines@.map_values(|l: String| l@), "  $ "@) + "\n"@
}

/// One block.
pub open spec fn plain_block(b: Block) -> Seq<char> {
    match b {
        Block::Group(g) => plain_group(g),
        Block::SectionHeading { text } => text@ + "\n"@ + repeat('-', rule_len(text@.len(), 4))
            + "\n"@ + "\n"@,
        Block::Paragraph { text } => wrapped(text@, 78) + "\n\n"@,
        Block::Code(c) => plain_code(c),
        Block::Cta(c) => "→ "@ + c.label@ + ": "@ + c.href@ + "\n"@ + "\n"@,
    }
}

/// The blocks, in order.
pub open spec fn plain_blocks(bs: Seq<Block>) -> Seq<char>
    decreases bs.len(),
{
    if bs.len() == 0 {
        seq![]
    } else {
        plain_blocks(bs.drop_last()) + plain_block(bs.last())
    }
}

/// The wrapped footer lines, each ended by a newline.
pub open spec fn plain_footer(ls: Seq<String>) -> Seq<char>
    decreases ls.len(),
{
    if ls.len() == 0 {
        seq![]
    } else {
        plain_footer(ls.drop_last()) + wrapped(ls.last()@, 78) + "\n"@
    }
}

/// The plain-text alternative of a document.
pub open spec fn plain_document(d: EmailDocument) -> Seq<char> {
    (match d.eyebrow {
        Some(e) => "["@ + e@ + "]\n"@,
        None => seq![],
    }) + d.heading@ + "\n"@ + repeat('=', rule_len(d.heading@.len(), 8)) + "\n"@ + "\n"@
        + (match d.intro {
        Some(i) => wrapped(i@, 78) + "\n\n"@,
        None => seq![],
    }) + plain_blocks(d.blocks@) + (if d.footer_lines@.len() > 0 {
        repeat('-', 60) + "\n"@ + plain_footer(d.footer_lines@)
    } else {
        seq![]
    })
}

/// Appends `n` copies of `c`.
fn push_repeat(out: &mut String, c: char, n: usize)
    ensures
        final(out)@ == old(out)@ + repeat(c, n as nat),
{
    let ghost start = out@;
    let mut i: usize = 0;
    while i < n
        invariant
            i <= n,
            out@ == start + repeat(c, i as nat),
        decreases n - i,
    {
        push_char(out, c);
        assert(repeat(c, (i + 1) as nat) =~= repeat(c, i as nat).push(c));
        i = i + 1;
    }
}

/// The rule length for a text of `n` characters.
fn rule_len_exec(n: usize, lo: usize) -> (r: usize)
    requires
        lo <= 60,
    ensures
        r == rule_len(n as nat, lo as nat),
{
    let m = if n < 60 {
        n
    } else {
        60
    };
    if m < lo {
        lo
    } else {
        m
    }
}

/// Appends each line of `text` with a prefix and a newline.
fn push_prefixed_lines(out: &mut String, text: &str, prefix: &str)
    ensures
        final(out)@ == old(out)@ + prefixed_lines(lines(text@), prefix@),
{
    let v = chars_of(text);
    let ls = lines_of(&v);
    let ghost lv = views(ls@);
    let ghost start = out@;
    let mut i: usize = 0;
    while i < ls.len()
        invariant
            i <= ls@.len(),
            lv == views(ls@),
            lv == lines(text@),
            out@ == start + prefixed_lines(lv.take(i as int), prefix@),
        decreases ls.len() - i,
    {
        assert(lv[i as int] == ls@[i as int]@);
        assert(lv.take(i + 1).drop_last() =~= lv.take(i as int));
        out.append(prefix);
        append_chars(out, &ls[i]);
        out.append("\n");
        i = i + 1;
    }
    assert(lv.take(lv.len() as int) =~= lv);
}

fn push_record(out: &mut String, r: &RecordCard)
    ensures
        final(out)@ == old(out)@ + plain_record(*r),
{
    out.append("  ");
    append_string(out, &r.eyebrow);
    out.append(" · ");
    append_string(out, &r.primary_label);
    match &r.type_tag {
        Some(t) => {
            out.append(" [");
            append_string(out, t);
            out.append("]");
        },
        None => {},
    }
    out.append("\n");
    push_prefixed_lines(out, r.value.as_str(), "    ");
    match &r.note {
        Some(n) => {
            let w = wrap(n.as_str(), 72);
            push_prefixed_lines(out, w.as_str(), "      ↳ ");
        },
        None => {},
    }
}

/// The heading part of a card: eyebrow and title, wrapped subtitle, rule.
pub open spec fn plain_group_head(g: GroupCard) -> Seq<char> {
    "["@ + g.eyebrow@ + "] "@ + g.title@ + "\n"@ + (match g.subtitle {
        Some(sub) => prefixed_lines(lines(wrapped(sub@, 76)), "  "@),
        None => seq![],
    }) + repeat('-', rule_len(g.title@.len() + g.eyebrow@.len() + 3, 8)) + "\n"@
}

/// The body part of a card.
pub open spec fn plain_group_body(b: GroupBody) -> Seq<char> {
    match b {
        GroupBody::Fields { fields } => plain_fields(fields@),
        GroupBody::Records { records } => plain_records(records@),
    }
}

/// The how-to part of a card.
pub open spec fn plain_group_how_to(h: Option<String>) -> Seq<char> {
    match h {
        Some(h) => "\n"@ + prefixed_lines(lines(wrapped(stripped(h@), 76)), "→ "@),
        None => seq![],
    }
}

fn push_group_head(out: &mut String, g: &GroupCard)
    ensures
        final(out)@ == old(out)@ + plain_group_head(*g),
{
    let ghost start = out@;
    out.append("[");
    append_string(out, &g.eyebrow);
    out.append("] ");
    append_string(out, &g.title);
    out.append("\n");
    match &g.subtitle {
        Some(sub) => {
            let w = wrap(sub.as_str(), 76);
            push_prefixed_lines(out, w.as_str(), "  ");
        },
        None => {},
    }
    let tl = chars_of(g.title.as_str()).len();
    let el = chars_of(g.eyebrow.as_str()).len();
    let n: usize = if tl >= 60 || el >= 60 {
        60
    } else {
        rule_len_exec(tl + el + 3, 8)
    };
    push_repeat(out, '-', n);
    out.append("\n");
    assert(out@ =~= start + plain_group_head(*g));
}

fn push_field(out: &mut String, f: &Field)
    ensures
        final(out)@ == old(out)@ + plain_field(*f),
{
    if f.mono {
        out.append("  ");
        append_string(out, &f.label);
        out.append(": ");
        append_string(out, &f.value);
        out.append("\n");
    } else {
        let mut text = f.label.clone();
        text.append(": ");
        append_string(&mut text, &f.value);
        let w = wrap(text.as_str(), 76);
        push_prefixed_lines(out, w.as_str(), "  ");
    }
}

fn push_group_body(out: &mut String, b: &GroupBody)
    ensures
        final(out)@ == old(out)@ + plain_group_body(*b),
{
    match b {
        GroupBody::Fields { fields } => {
            let ghost mid = out@;
            let mut i: usize = 0;
            while i < fields.len()
                invariant
                    i <= fields@.len(),
                    out@ == mid + plain_fields(fields@.take(i as int)),
                decreases fields.len() - i,
            {
                push_field(out, &fields[i]);
                assert(fields@.take(i + 1).drop_last() =~= fields@.take(i as int));
                i = i + 1;
            }
            assert(fields@.take(fields@.len() as int) =~= fields@);
        },
        GroupBody::Records { records } => {
            let ghost mid = out@;
            let mut i: usize = 0;
            while i < records.len()
                invariant
                    i <= records@.len(),
                    out@ == mid + plain_records(records@.take(i as int)),
                decreases records.len() - i,
            {
                assert(records@.take(i + 1).drop_last() =~= records@.take(i as int));
                if i > 0 {
                    out.append("\n");
                    push_record(out, &records[i]);
                } else {
                    push_record(out, &records[i]);
                    assert(out@ =~= mid + plain_records(records@.take(1)));
                }
                i = i + 1;
            }
            assert(records@.take(records@.len() as int) =~= records@);
        },
    }
}

fn push_group(out: &mut String, g: &GroupCard)
    ensures
        final(out)@ == old(out)@ + plain_group(*g),
{
    let ghost start = out@;
    push_group_head(out, g);
    push_group_body(out, &g.body);
    match &g.how_to {
        Some(h) => {
            out.append("\n");
            let s = strip_tags(h.as_str());
            let w = wrap(s.as_str(), 76);
            push_prefixed_lines(out, w.as_str(), "→ ");
        },
        None => {},
    }
    out.append("\n");
    assert(out@ =~= start + plain_group_head(*g) + plain_group_body(g.body) + plain_group_how_to(g.how_to) + "\n"@);
}

fn push_code(out: &mut String, c: &CodeBlock)
    ensures
        final(out)@ == old(out)@ + plain_code(*c),
{
    let ghost start = out@;
    match &c.eyebrow {
        Some(e) => {
            out.append("[");
            append_string(out, e);
            out.append("]\n");
        },
        None => {},
    }
    let ghost lv = c.lines@.map_values(|l: String| l@);
    let ghost mid = out@;
    let mut i: usize = 0;
    while i < c.lines.len()
        invariant
            i <= c.lines@.len(),
            lv == c.lines@.map_values(|l: String| l@),
            out@ == mid + prefixed_lines(lv.take(i as int), "  $ "@),
        decreases c.lines.len() - i,
    {
        assert(lv.take(i + 1).drop_last() =~= lv.take(i as int));
        out.append("  $ ");
        append_string(out, &c.lines[i]);
        out.append("\n");
        i = i + 1;
    }
    assert(lv.take(lv.len() as int) =~= lv);
    out.append("\n");
    assert(out@ =~= start + plain_code(*c));
}

fn push_block(out: &mut String, b: &Block)
    ensures
        final(out)@ == old(out)@ + plain_block(*b),
{
    match b {
        Block::Group(g) => push_group(out, g),
        Block::SectionHeading { text } => {
            append_string(out, text);
            out.append("\n");
            let n = rule_len_exec(chars_of(text.as_str()).len(), 4);
            push_repeat(out, '-', n);
            out.append("\n");
            out.append("\n");
        },
        Block::Paragraph { text } => {
            let w = wrap(text.as_str(), WRAP);
            append_string(out, &w);
            out.append("\n\n");
        },
        Block::Code(c) => push_code(out, c),
        Block::Cta(c) => {
            out.append("→ ");
            append_string(out, &c.label);
            out.append(": ");
            append_string(out, &c.href);
            out.append("\n");
            out.append("\n");
        },
    }
}

/// The plain-text alternative of a document.
pub fn render(doc: &EmailDocument) -> (r: String)
    ensures
        r@ == plain_document(*doc),
{
    let mut out = String::new();
    match &doc.eyebrow {
        Some(e) => {
            out.append("[");
            append_string(&mut out, e);
            out.append("]\n");
        },
        None => {},
    }
    append_string(&mut out, &doc.heading);
    out.append("\n");
    let n = rule_len_exec(chars_of(doc.heading.as_str()).len(), 8);
    push_repeat(&mut out, '=', n);
    out.append("\n");
    out.append("\n");
    match &doc.intro {
        Some(i) => {
            let w = wrap(i.as_str(), WRAP);
            append_string(&mut out, &w);
            out.append("\n\n");
        },
        None => {},
    }
    let ghost mid = out@;
    let mut i: usize = 0;
    while i < doc.blocks.len()
        invariant
            i <= doc.blocks@.len(),
            out@ == mid + plain_blocks(doc.blocks@.take(i as int)),
        decreases doc.blocks.len() - i,
    {
        push_block(&mut out, &doc.blocks[i]);
        assert(doc.blocks@.take(i + 1).drop_last() =~= doc.blocks@.take(i as int));
        i = i + 1;
    }
    assert(doc.blocks@.take(doc.blocks@.len() as int) =~= doc.blocks@);
    if doc.footer_lines.len() > 0 {
        push_repeat(&mut out, '-', 60);
        out.append("\n");
        let ghost fmid = out@;
        let mut k: usize = 0;
        while k < doc.footer_lines.len()
            invariant
                k <= doc.footer_lines@.len(),
                out@ == fmid + plain_footer(doc.footer_lines@.take(k as int)),
            decreases doc.footer_lines.len() - k,
        {
            let w = wrap(doc.footer_lines[k].as_str(), WRAP);
            append_string(&mut out, &w);
            out.append("\n");
            assert(doc.footer_lines@.take(k + 1).drop_last() =~= doc.footer_lines@.take(k as int));
            k = k + 1;
        }
        assert(doc.footer_lines@.take(doc.footer_lines@.len() as int) =~= doc.footer_lines@);
    }
    assert(out@ =~= plain_document(*doc));
    out
}

impl EmailDocument {
    /// The `text/plain` alternative: prose wrapped at 78 columns, code
    /// verbatim, sections set off by blank lines and rule lines.
    pub fn render_plain(&self) -> (r: String)
        ensures
            r@ == plain_document(*self),
    {
        render(self)
    }
}


// ----- calls to action --------------------------------------------------

proof fn lemma_blocks_hold(bs: Seq<Block>, i: int, b: Seq<char>)
    requires
        0 <= i < bs.len(),
        has_sub(plain_block(bs[i]), b),
    ensures
        has_sub(plain_blocks(bs), b),
    decreases bs.len(),
{
    if i == bs.len() - 1 {
        assert(plain_blocks(bs) =~= plain_blocks(bs.drop_last()) + plain_block(bs[i]) + Seq::<char>::empty());
        lemma_sub_within(plain_blocks(bs.drop_last()), plain_block(bs[i]), Seq::<char>::empty(), b);
    } else {
        assert(bs.drop_last()[i] == bs[i]);
        lemma_blocks_hold(bs.drop_last(), i, b);
        assert(plain_blocks(bs) =~= Seq::<char>::empty() + plain_blocks(bs.drop_last()) + plain_block(bs.last()));
        lemma_sub_within(Seq::<char>::empty(), plain_blocks(bs.drop_last()), plain_block(bs.last()), b);
    }
}

/// Every call to action of a document keeps its label and its link in the
/// plain-text alternative, verbatim, so a plain-text reader can follow it.
pub proof fn law_plain_keeps_cta_links(d: EmailDocument, i: int)
    requires
        0 <= i < d.blocks@.len(),
        d.blocks@[i] is Cta,
    ensures
        has_sub(plain_document(d), d.blocks@[i]->Cta_0.href@),
        has_sub(plain_document(d), d.blocks@[i]->Cta_0.label@),
{
    let c = d.blocks@[i]->Cta_0;
    let pb = plain_block(d.blocks@[i]);
    assert(pb =~= ("→ "@ + c.label@ + ": "@) + c.href@ + ("\n"@ + "\n"@));
    assert(c.href@.subrange(0, c.href@.len() as int) =~= c.href@);
    assert(occurs_at(c.href@, c.href@, 0));
    lemma_sub_within("→ "@ + c.label@ + ": "@, c.href@, "\n"@ + "\n"@, c.href@);
    assert(pb =~= "→ "@ + c.label@ + (": "@ + c.href@ + "\n"@ + "\n"@));
    assert(c.label@.subrange(0, c.label@.len() as int) =~= c.label@);
    assert(occurs_at(c.label@, c.label@, 0));
    lemma_sub_within("→ "@, c.label@, ": "@ + c.href@ + "\n"@ + "\n"@, c.label@);
    lemma_blocks_hold(d.blocks@, i, c.href@);
    lemma_blocks_hold(d.blocks@, i, c.label@);
    let pre = (match d.eyebrow {
        Some(e) => "["@ + e@ + "]\n"@,
        None => seq![],
    }) + d.heading@ + "\n"@ + repeat('=', rule_len(d.heading@.len(), 8)) + "\n"@ + "\n"@ + (match d.intro {
        Some(x) => wrapped(x@, 78) + "\n\n"@,
        None => seq![],
    });
    let post = if d.footer_lines@.len() > 0 {
        repeat('-', 60) + "\n"@ + plain_footer(d.footer_lines@)
    } else {
        seq![]
    };
    assert(plain_document(d) =~= pre + plain_blocks(d.blocks@) + post);
    lemma_sub_within(pre, plain_blocks(d.blocks@), post, c.href@);
    lemma_sub_within(pre, plain_blocks(d.blocks@), post, c.label@);
}

} // verus!
