//! Recursive-descent parsing of `BEGIN:`/`END:` components over the
//! content lines of a document.
use vstd::prelude::*;
use crate::calendar::ics_text::{Property, PropV, parse_property_line, prop_view, property_of};
use crate::text::{
    append_string, chars_eq, dec, fmt_u64, has_prefix, owned, starts_with_chars, string_of,
    trim, trimmed_chars, views,
};

verus! {

/// Errors of calendar parsing and writing.
#[derive(Debug, Clone, PartialEq, Eq)]
pub enum IcsError {
    /// The input is not valid iCalendar syntax.
    Malformed(String),
    /// A required property is missing.
    MissingProperty {
        /// The component it is missing from.
        component: &'static str,
        /// The property.
        property: &'static str,
    },
    /// A date, time or duration could not be read.
    BadDateTime {
        /// The field holding it.
        field: &'static str,
        /// The raw value.
        value: String,
        /// Why it failed.
        reason: String,
    },
}

/// An error as plain values.
pub enum ErrV {
    Malformed(Seq<char>),
    MissingProperty(Seq<char>, Seq<char>),
    BadDateTime(Seq<char>, Seq<char>, Seq<char>),
}

/// An error as plain values.
pub open spec fn err_view(e: IcsError) -> ErrV {
    match e {
        IcsError::Malformed(m) => ErrV::Malformed(m@),
        IcsError::MissingProperty { component, property } => ErrV::MissingProperty(
            component@,
            property@,
        ),
        IcsError::BadDateTime { field, value, reason } => ErrV::BadDateTime(
            field@,
            value@,
            reason@,
        ),
    }
}

/// The message of an error.
pub open spec fn ics_error_text(e: ErrV) -> Seq<char> {
    match e {
        ErrV::Malformed(m) => "malformed iCalendar input: "@ + m,
        ErrV::MissingProperty(c, p) => "missing required property `"@ + p + "` in "@ + c,
        ErrV::BadDateTime(f, v, r) => "invalid date/time `"@ + v + "` in "@ + f + ": "@ + r,
    }
}

impl IcsError {
    /// The human-readable message of this error.
    pub fn message(&self) -> (r: String)
        ensures
            r@ == ics_error_text(err_view(*self)),
    {
        match self {
            IcsError::Malformed(m) => {
                let mut s = owned("malformed iCalendar input: ");
                append_string(&mut s, m);
                s
            },
            IcsError::MissingProperty { component, property } => {
                let mut s = owned("missing required property `");
                s.append(property);
                s.append("` in ");
                s.append(component);
                s
            },
            IcsError::BadDateTime { field, value, reason } => {
                let mut s = owned("invalid date/time `");
                append_string(&mut s, value);
                s.append("` in ");
                s.append(field);
                s.append(": ");
                append_string(&mut s, reason);
                s
            },
        }
    }
}

/// One component (VEVENT, VTODO, VALARM, ...).
#[derive(Debug)]
pub struct Component {
    /// Its name (`VEVENT`).
    pub name: String,
    /// Single-valued properties in line order; a later one wins on lookup.
    pub props: Vec<(String, Property)>,
    /// Repeatable properties (ATTENDEE, COMMENT, CATEGORIES, RELATED-TO),
    /// in line order.
    pub multi: Vec<(String, Property)>,
    /// Nested components, in order.
    pub nested: Vec<Component>,
}

/// A component as plain values.
pub struct CompV {
    pub name: Seq<char>,
    pub props: Seq<(Seq<char>, PropV)>,
    pub multi: Seq<(Seq<char>, PropV)>,
    pub nested: Seq<CompV>,
}

/// Named properties as plain values.
pub open spec fn props_view(ps: Seq<(String, Property)>) -> Seq<(Seq<char>, PropV)> {
    ps.map_values(|kp: (String, Property)| (kp.0@, prop_view(kp.1)))
}

/// A component as plain values.
pub open spec fn comp_view(c: Component) -> CompV
    decreases c,
{
    CompV {
        name: c.name@,
        props: props_view(c.props@),
        multi: props_view(c.multi@),
        nested: Seq::new(
            c.nested.len() as nat,
            |i: int|
                if 0 <= i < c.nested.len() {
                    comp_view(c.nested[i])
                } else {
                    CompV { name: seq![], props: seq![], multi: seq![], nested: seq![] }
                },
        ),
    }
}

/// Whether a property repeats rather than overwrites.
pub open spec fn is_multi_valued(key: Seq<char>) -> bool {
    key == "ATTENDEE"@ || key == "COMMENT"@ || key == "CATEGORIES"@ || key == "RELATED-TO"@
}

/// A component with one more property line.
pub open spec fn with_property(c: CompV, key: Seq<char>, p: PropV) -> CompV {
    if is_multi_valued(key) {
        CompV { multi: c.multi.push((key, p)), ..c }
    } else {
        CompV { props: c.props.push((key, p)), ..c }
    }
}

/// The component that starts at `lines[start]` and the index just past
/// its `END:` line.
pub open spec fn parse_comp(lines: Seq<Seq<char>>, start: int) -> Result<(CompV, int), ErrV>
    decreases lines.len() - start, 0int,
{
    if !(0 <= start < lines.len()) {
        Err(
            ErrV::Malformed(
                "expected BEGIN line at index "@ + dec(start as nat) + ", hit EOF"@,
            ),
        )
    } else if !has_prefix(lines[start], "BEGIN:"@) {
        Err(ErrV::Malformed("expected BEGIN:, found `"@ + lines[start] + "`"@))
    } else {
        let name = trim(lines[start].skip(6));
        parse_body(
            lines,
            start + 1,
            CompV { name, props: seq![], multi: seq![], nested: seq![] },
        )
    }
}

/// The rest of a component's body from `lines[i]` on, given what has been
/// read of it so far.
pub open spec fn parse_body(lines: Seq<Seq<char>>, i: int, c: CompV) -> Result<(CompV, int), ErrV>
    decreases lines.len() - i, 1int,
{
    if !(0 <= i < lines.len()) {
        Err(ErrV::Malformed("missing END:"@ + c.name + " for BEGIN:"@ + c.name))
    } else if trim(lines[i]) == "END:"@ + c.name {
        Ok((c, i + 1))
    } else if has_prefix(lines[i], "BEGIN:"@) {
        match parse_comp(lines, i) {
            Err(e) => Err(e),
            Ok((n, next)) => if next <= i || next > lines.len() {
                Err(ErrV::Malformed(seq![]))
            } else {
                parse_body(lines, next, CompV { nested: c.nested.push(n), ..c })
            },
        }
    } else {
        match property_of(lines[i]) {
            Some((k, p)) => parse_body(lines, i + 1, with_property(c, k, p)),
            None => parse_body(lines, i + 1, c),
        }
    }
}

/// A parsed component always ends after its start.
pub proof fn lemma_parse_comp_advances(lines: Seq<Seq<char>>, start: int)
    ensures
        parse_comp(lines, start) matches Ok((_, next)) ==> start < next <= lines.len(),
    decreases lines.len() - start, 0int,
{
    if 0 <= start < lines.len() && has_prefix(lines[start], "BEGIN:"@) {
        let name = trim(lines[start].skip(6));
        lemma_parse_body_advances(
            lines,
            start + 1,
            CompV { name, props: seq![], multi: seq![], nested: seq![] },
        );
    }
}

/// A parsed body ends at or after where it started.
pub proof fn lemma_parse_body_advances(lines: Seq<Seq<char>>, i: int, c: CompV)
    ensures
        parse_body(lines, i, c) matches Ok((_, next)) ==> i < next <= lines.len(),
    decreases lines.len() - i, 1int,
{
    if 0 <= i < lines.len() && trim(lines[i]) != "END:"@ + c.name {
        if has_prefix(lines[i], "BEGIN:"@) {
            lemma_parse_comp_advances(lines, i);
            match parse_comp(lines, i) {
                Ok((n, next)) => {
                    if i < next <= lines.len() {
                        lemma_parse_body_advances(lines, next, CompV { nested: c.nested.push(n), ..c });
                    }
                },
                Err(_) => {},
            }
        } else {
            match property_of(lines[i]) {
                Some((k, p)) => lemma_parse_body_advances(lines, i + 1, with_property(c, k, p)),
                None => lemma_parse_body_advances(lines, i + 1, c),
            }
        }
    }
}

/// Whether line `l` is `END:name` once trimmed.
fn is_end_line(l: &Vec<char>, name: &String) -> (r: bool)
    ensures
        r == (trim(l@) == "END:"@ + name@),
{
    let mut marker = owned("END:");
    append_string(&mut marker, name);
    let m = crate::text::chars_of(marker.as_str());
    let t = trimmed_chars(l);
    chars_eq(&t, &m)
}

/// Parses the component starting at `lines[start]`; returns it and the
/// index just past its `END:` line.
pub fn parse_component(lines: &Vec<Vec<char>>, start: usize) -> (r: Result<(Component, usize), IcsError>)
    ensures
        match r {
            Ok((c, next)) => parse_comp(views(lines@), start as int) == Ok::<(CompV, int), ErrV>((comp_view(c), next as int)),
            Err(e) => parse_comp(views(lines@), start as int) == Err::<(CompV, int), ErrV>(err_view(e)),
        },
    decreases lines.len() - start,
{
    let ghost lv = views(lines@);
    if start >= lines.len() {
        let mut m = owned("expected BEGIN line at index ");
        let n = fmt_u64(start as u64);
        append_string(&mut m, &n);
        m.append(", hit EOF");
        return Err(IcsError::Malformed(m));
    }
    let begin = &lines[start];
    assert(lv[start as int] == begin@);
    let prefix = crate::text::chars_of("BEGIN:");
    if !starts_with_chars(begin, &prefix) {
        let mut m = owned("expected BEGIN:, found `");
        append_string(&mut m, &string_of(begin));
        m.append("`");
        return Err(IcsError::Malformed(m));
    }
    proof {
        reveal_strlit("BEGIN:");
    }
    let name_chars = trimmed_chars(&crate::text::slice_chars(begin, 6, begin.len()));
    assert(begin@.subrange(6, begin@.len() as int) =~= begin@.skip(6));
    let name = string_of(&name_chars);
    let mut comp = Component { name, props: Vec::new(), multi: Vec::new(), nested: Vec::new() };
    assert(comp_view(comp).nested =~= seq![]);
    assert(comp_view(comp).props =~= seq![]);
    assert(comp_view(comp).multi =~= seq![]);
    let mut i: usize = start + 1;
    while i < lines.len()
        invariant
            start < i <= lines@.len(),
            lv == views(lines@),
            prefix@ == "BEGIN:"@,
            parse_comp(lv, start as int) == parse_body(lv, i as int, comp_view(comp)),
        decreases lines.len() - i,
    {
        let line = &lines[i];
        assert(lv[i as int] == line@);
        if is_end_line(line, &comp.name) {
            return Ok((comp, i + 1));
        }
        if starts_with_chars(line, &prefix) {
            proof {
                lemma_parse_comp_advances(lv, i as int);
            }
            match parse_component(lines, i) {
                Ok((nested, next)) => {
                    let ghost before = comp_view(comp);
                    comp.nested.push(nested);
                    assert(comp_view(comp).nested =~= before.nested.push(comp_view(nested)));
                    assert(comp_view(comp) =~~= CompV { nested: before.nested.push(comp_view(nested)), ..before });
                    i = next;
                },
                Err(e) => {
                    assert(has_prefix(lv[i as int], "BEGIN:"@));
                    assert(trim(lv[i as int]) != "END:"@ + comp_view(comp).name);
                    assert(parse_comp(lv, i as int) == Err::<(CompV, int), ErrV>(err_view(e)));
                    assert(parse_body(lv, i as int, comp_view(comp)) == Err::<(CompV, int), ErrV>(err_view(e)));
                    return Err(e);
                },
            }
        } else {
            let text = string_of(line);
            match parse_property_line(text.as_str()) {
                Some((key, prop)) => {
                    let ghost before = comp_view(comp);
                    let k = crate::text::chars_of(key.as_str());
                    let multi = chars_eq(&k, &crate::text::chars_of("ATTENDEE")) || chars_eq(&k, &crate::text::chars_of("COMMENT"))
                        || chars_eq(&k, &crate::text::chars_of("CATEGORIES")) || chars_eq(&k, &crate::text::chars_of("RELATED-TO"));
                    let ghost kp = (key@, prop_view(prop));
                    if multi {
                        let ghost old_multi = comp.multi@;
                        comp.multi.push((key, prop));
                        assert(props_view(comp.multi@) =~= props_view(old_multi).push(kp));
                    } else {
                        let ghost old_props = comp.props@;
                        comp.props.push((key, prop));
                        assert(props_view(comp.props@) =~= props_view(old_props).push(kp));
                    }
                    assert(comp_view(comp) =~~= with_property(before, k@, prop_view(prop)));
                },
                None => {},
            }
            i = i + 1;
        }
    }
    let mut m = owned("missing END:");
    append_string(&mut m, &comp.name);
    m.append(" for BEGIN:");
    append_string(&mut m, &comp.name);
    Err(IcsError::Malformed(m))
}

} // verus!
