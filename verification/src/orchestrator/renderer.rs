//! Named Jinja templates that operators edit: the plain text of
//! notifications and router acknowledgements is rendered through them by
//! the minijinja engine.
use vstd::prelude::*;
use crate::orchestrator::notify::{announcement_doc, polished_notification_document, shows};
use crate::templates::document::doc_view;
use crate::templates::document::EmailDocument;
use crate::templates::theme::{Theme, is_plausiden};
use crate::text::{chars_of, last_index, owned, rfind_char, str_eq, string_of_range};

verus! {

// ----- values handed to the engine -------------------------------------

/// Template sources by name, as plain values.
pub open spec fn sources_view(t: Seq<(String, String)>) -> Seq<(Seq<char>, Seq<char>)> {
    t.map_values(|p: (String, String)| (p.0@, p.1@))
}

/// The text of an optional value.
pub open spec fn opt_text(o: Option<String>) -> Option<Seq<char>> {
    match o {
        Some(s) => Some(s@),
        None => None,
    }
}

/// Inline sources as plain values.
pub open spec fn str_pairs(t: Seq<(&str, &str)>) -> Seq<(Seq<char>, Seq<char>)> {
    t.map_values(|p: (&str, &str)| (p.0@, p.1@))
}

/// The names of named sources.
pub open spec fn names_of(s: Seq<(Seq<char>, Seq<char>)>) -> Seq<Seq<char>> {
    s.map_values(|p: (Seq<char>, Seq<char>)| p.0)
}

/// The texts of strings.
pub open spec fn string_views(v: Seq<String>) -> Seq<Seq<char>> {
    v.map_values(|s: String| s@)
}

/// Context variables: a name and a text, or Jinja's `none`.
pub open spec fn vars_view(v: Seq<(String, Option<String>)>) -> Seq<(Seq<char>, Option<Seq<char>>)> {
    v.map_values(|p: (String, Option<String>)| (p.0@, opt_text(p.1)))
}

/// The templates an engine holds after the sources were added in order:
/// a later source replaces an earlier one of the same name.
pub open spec fn source_map(s: Seq<(Seq<char>, Seq<char>)>) -> Map<Seq<char>, Seq<char>>
    decreases s.len(),
{
    if s.len() == 0 {
        Map::empty()
    } else {
        source_map(s.drop_last()).insert(s.last().0, s.last().1)
    }
}

/// Whether minijinja accepts `source` as the template `name` (no syntax
/// error).
pub uninterp spec fn jinja_compiles(name: Seq<char>, source: Seq<char>) -> bool;

/// What minijinja renders for the template `name` of an engine holding
/// `templates`, with the context `vars` (a later variable of a name wins):
/// `None` when the template is missing or rendering fails.
pub uninterp spec fn jinja_output(
    templates: Map<Seq<char>, Seq<char>>,
    name: Seq<char>,
    vars: Seq<(Seq<char>, Option<Seq<char>>)>,
) -> Option<Seq<char>>;

/// Calls `minijinja::Environment::add_template_owned` on a fresh
/// environment. Claims that the answer is the named verdict on
/// (`name`, `source`).
#[verifier::external_body]
fn template_compiles(name: &str, source: &str) -> (r: bool)
    ensures
        r == jinja_compiles(name@, source@),
{
    let mut env = minijinja::Environment::new();
    env.add_template_owned(name.to_string(), source.to_string()).is_ok()
}

/// Adds `templates` in order to a fresh `minijinja::Environment`, then
/// calls `get_template(name)` and `Template::render` with a map of the
/// variables (a missing text becomes `Value::from(())`). Claims that the
/// result is the named output for the engine's templates, `name` and
/// `vars`. The templates carry distinct names and each compiles, so every
/// one is added and the engine holds exactly their map.
#[verifier::external_body]
fn jinja_render(
    templates: &Vec<(String, String)>,
    name: &str,
    vars: &Vec<(String, Option<String>)>,
) -> (r: Option<String>)
    requires
        distinct_names(sources_view(templates@)),
        all_compile(sources_view(templates@)),
    ensures
        r matches Some(s) ==> jinja_output(source_map(sources_view(templates@)), name@, vars_view(vars@)) == Some(s@),
        r is None ==> jinja_output(source_map(sources_view(templates@)), name@, vars_view(vars@)) is None,
{
    let mut env = minijinja::Environment::new();
    for (n, s) in templates.iter() {
        env.add_template_owned(n.clone(), s.clone()).ok()?;
    }
    let mut ctx = std::collections::BTreeMap::new();
    for (k, v) in vars.iter() {
        ctx.insert(k.clone(), minijinja::Value::from(v.clone()));
    }
    env.get_template(name).ok()?.render(ctx).ok()
}

// ----- errors ----------------------------------------------------------

/// Why templates could not be loaded or rendered.
#[derive(Debug, Clone, PartialEq, Eq)]
pub enum TemplateError {
    /// The named template has a syntax error.
    Syntax(String),
    /// No template of that name is loaded.
    NotFound(String),
    /// The template failed while rendering.
    Render(String),
}

impl TemplateError {
    /// A one-line description.
    pub fn message(&self) -> (r: String)
        ensures
            r@ == error_text(*self),
    {
        let mut out = String::new();
        match self {
            TemplateError::Syntax(n) => {
                out.append("template '");
                out.append(n.as_str());
                out.append("' has a syntax error");
            },
            TemplateError::NotFound(n) => {
                out.append(n.as_str());
                out.append(" template not found");
            },
            TemplateError::Render(n) => {
                out.append("template '");
                out.append(n.as_str());
                out.append("' failed to render");
            },
        }
        out
    }
}

/// The description of an error.
pub open spec fn error_text(e: TemplateError) -> Seq<char> {
    match e {
        TemplateError::Syntax(n) => "template '"@ + n@ + "' has a syntax error"@,
        TemplateError::NotFound(n) => n@ + " template not found"@,
        TemplateError::Render(n) => "template '"@ + n@ + "' failed to render"@,
    }
}

// ----- the template set ------------------------------------------------

/// Whether no two entries share a name.
pub open spec fn distinct_names(s: Seq<(Seq<char>, Seq<char>)>) -> bool {
    forall|i: int, j: int| 0 <= i < j < s.len() ==> #[trigger] s[i].0 != #[trigger] s[j].0
}

/// Whether minijinja accepts every entry as a template.
pub open spec fn all_compile(s: Seq<(Seq<char>, Seq<char>)>) -> bool {
    forall|i: int| 0 <= i < s.len() ==> jinja_compiles(#[trigger] s[i].0, s[i].1)
}

/// The position of the entry named `n`.
pub open spec fn name_index(s: Seq<(Seq<char>, Seq<char>)>, n: Seq<char>) -> Option<int>
    decreases s.len(),
{
    if s.len() == 0 {
        None
    } else if s.last().0 == n {
        Some(s.len() - 1)
    } else {
        name_index(s.drop_last(), n)
    }
}

/// Adding a template: it replaces the entry of its name, or comes last.
pub open spec fn put(s: Seq<(Seq<char>, Seq<char>)>, n: Seq<char>, src: Seq<char>) -> Seq<(Seq<char>, Seq<char>)> {
    match name_index(s, n) {
        Some(i) => s.update(i, (n, src)),
        None => s.push((n, src)),
    }
}

/// Adding the sources in order, or the name of the first that does not
/// compile.
pub open spec fn load(s: Seq<(Seq<char>, Seq<char>)>) -> Result<Seq<(Seq<char>, Seq<char>)>, Seq<char>>
    decreases s.len(),
{
    if s.len() == 0 {
        Ok(Seq::empty())
    } else {
        match load(s.drop_last()) {
            Err(n) => Err(n),
            Ok(t) => if jinja_compiles(s.last().0, s.last().1) {
                Ok(put(t, s.last().0, s.last().1))
            } else {
                Err(s.last().0)
            },
        }
    }
}

/// The template name a directory entry gives: the file name without its
/// `.j2` extension, for files that have it.
pub open spec fn j2_stem(f: Seq<char>) -> Option<Seq<char>> {
    match last_index(f, '.') {
        Some(i) => if i >= 1 && f.len() == i + 3 && f[i + 1] == 'j' && f[i + 2] == '2' {
            Some(f.take(i))
        } else {
            None
        },
        None => None,
    }
}

/// The templates of a directory listing: its `.j2` files, by stem.
pub open spec fn j2_entries(files: Seq<(Seq<char>, Seq<char>)>) -> Seq<(Seq<char>, Seq<char>)>
    decreases files.len(),
{
    if files.len() == 0 {
        Seq::empty()
    } else {
        let rest = j2_entries(files.drop_last());
        match j2_stem(files.last().0) {
            Some(n) => rest.push((n, files.last().1)),
            None => rest,
        }
    }
}

/// A set of named templates, each of which compiled.
pub struct TemplateRenderer {
    templates: Vec<(String, String)>,
}

impl View for TemplateRenderer {
    type V = Seq<(Seq<char>, Seq<char>)>;

    closed spec fn view(&self) -> Seq<(Seq<char>, Seq<char>)> {
        sources_view(self.templates@)
    }
}

proof fn lemma_name_index(s: Seq<(Seq<char>, Seq<char>)>, n: Seq<char>)
    ensures
        name_index(s, n) matches Some(i) ==> 0 <= i < s.len() && s[i].0 == n,
        name_index(s, n) is None ==> forall|k: int| 0 <= k < s.len() ==> s[k].0 != n,
    decreases s.len(),
{
    if s.len() > 0 {
        lemma_name_index(s.drop_last(), n);
        if name_index(s, n) is None {
            assert forall|k: int| 0 <= k < s.len() implies s[k].0 != n by {
                if k < s.len() - 1 {
                    assert(s.drop_last()[k] == s[k]);
                }
            }
        }
    }
}

proof fn lemma_put_distinct(s: Seq<(Seq<char>, Seq<char>)>, n: Seq<char>, src: Seq<char>)
    requires
        distinct_names(s),
    ensures
        distinct_names(put(s, n, src)),
{
    lemma_name_index(s, n);
    let t = put(s, n, src);
    assert forall|i: int, j: int| 0 <= i < j < t.len() implies #[trigger] t[i].0 != #[trigger] t[j].0 by {
        match name_index(s, n) {
            Some(k) => {
                if i != k && j != k {
                    assert(s[i].0 != s[j].0);
                } else if i == k {
                    assert(s[k].0 != s[j].0);
                } else {
                    assert(s[i].0 != s[k].0);
                }
            },
            None => {
                if j < s.len() {
                    assert(s[i].0 != s[j].0);
                }
            },
        }
    }
}

proof fn lemma_load_distinct(s: Seq<(Seq<char>, Seq<char>)>)
    ensures
        load(s) matches Ok(t) ==> distinct_names(t),
    decreases s.len(),
{
    if s.len() > 0 {
        lemma_load_distinct(s.drop_last());
        if let Ok(t) = load(s.drop_last()) {
            lemma_put_distinct(t, s.last().0, s.last().1);
        }
    }
}

proof fn lemma_load_compiles(s: Seq<(Seq<char>, Seq<char>)>)
    ensures
        load(s) matches Ok(t) ==> all_compile(t),
    decreases s.len(),
{
    if s.len() > 0 {
        lemma_load_compiles(s.drop_last());
        if let Ok(t) = load(s.drop_last()) {
            let n = s.last().0;
            let src = s.last().1;
            if jinja_compiles(n, src) {
                let u = put(t, n, src);
                lemma_name_index(t, n);
                assert forall|i: int| 0 <= i < u.len() implies jinja_compiles(#[trigger] u[i].0, u[i].1) by {
                    match name_index(t, n) {
                        Some(k) => {
                            if i != k {
                                assert(u[i] == t[i]);
                                assert(jinja_compiles(t[i].0, t[i].1));
                            }
                        },
                        None => {
                            if i < t.len() {
                                assert(u[i] == t[i]);
                                assert(jinja_compiles(t[i].0, t[i].1));
                            }
                        },
                    }
                }
            }
        }
    }
}

/// The position of the entry named `name`.
fn find_name(list: &Vec<(String, String)>, name: &str) -> (r: Option<usize>)
    ensures
        r matches Some(i) ==> name_index(sources_view(list@), name@) == Some(i as int),
        r is None ==> name_index(sources_view(list@), name@) is None,
{
    let ghost s = sources_view(list@);
    assert(s.take(list.len() as int) =~= s);
    let mut j: usize = list.len();
    while j > 0
        invariant
            j <= list.len(),
            s == sources_view(list@),
            name_index(s, name@) == name_index(s.take(j as int), name@),
        decreases j,
    {
        assert(s.take(j as int).drop_last() =~= s.take(j - 1));
        if str_eq(list[j - 1].0.as_str(), name) {
            return Some(j - 1);
        }
        j = j - 1;
    }
    None
}

/// Adds a template to the list: it replaces the entry of its name, or
/// comes last.
fn put_template(list: &mut Vec<(String, String)>, name: String, source: String)
    ensures
        sources_view(final(list)@) == put(sources_view(old(list)@), name@, source@),
{
    let ghost s = sources_view(list@);
    proof {
        lemma_name_index(s, name@);
    }
    match find_name(list, name.as_str()) {
        Some(i) => {
            list.set(i, (name, source));
            assert(sources_view(list@) =~= put(s, name@, source@));
        },
        None => {
            list.push((name, source));
            assert(sources_view(list@) =~= put(s, name@, source@));
        },
    }
}

/// Adds the sources in order, stopping at the first that does not
/// compile.
fn load_all(entries: Vec<(String, String)>) -> (r: Result<Vec<(String, String)>, TemplateError>)
    ensures
        match load(sources_view(entries@)) {
            Ok(t) => r matches Ok(v) && sources_view(v@) == t,
            Err(n) => r matches Err(TemplateError::Syntax(m)) && m@ == n,
        },
{
    let ghost s = sources_view(entries@);
    let mut list: Vec<(String, String)> = Vec::new();
    assert(s.take(0) =~= Seq::<(Seq<char>, Seq<char>)>::empty());
    assert(sources_view(list@) =~= Seq::<(Seq<char>, Seq<char>)>::empty());
    let mut i: usize = 0;
    while i < entries.len()
        invariant
            i <= entries.len(),
            s == sources_view(entries@),
            load(s.take(i as int)) == Ok::<Seq<(Seq<char>, Seq<char>)>, Seq<char>>(sources_view(list@)),
        decreases entries.len() - i,
    {
        assert(s.take(i + 1).drop_last() =~= s.take(i as int));
        let name = owned(entries[i].0.as_str());
        let source = owned(entries[i].1.as_str());
        if !template_compiles(name.as_str(), source.as_str()) {
            proof {
                lemma_load_err_extends(s, i as int + 1);
            }
            return Err(TemplateError::Syntax(name));
        }
        put_template(&mut list, name, source);
        i = i + 1;
    }
    assert(s.take(entries.len() as int) =~= s);
    Ok(list)
}

/// Once loading a prefix fails, loading the whole fails with the same name.
proof fn lemma_load_err_extends(s: Seq<(Seq<char>, Seq<char>)>, k: int)
    requires
        0 <= k <= s.len(),
        load(s.take(k)) is Err,
    ensures
        load(s) == load(s.take(k)),
    decreases s.len() - k,
{
    if k < s.len() {
        assert(s.take(k + 1).drop_last() =~= s.take(k));
        lemma_load_err_extends(s, k + 1);
    } else {
        assert(s.take(k) =~= s);
    }
}

/// The template name of a directory entry.
pub fn template_stem(file_name: &str) -> (r: Option<String>)
    ensures
        r matches Some(n) ==> j2_stem(file_name@) == Some(n@),
        r is None ==> j2_stem(file_name@) is None,
{
    let v = chars_of(file_name);
    match rfind_char(&v, '.') {
        Some(i) => {
            if v.len() >= 3 && i == v.len() - 3 && i >= 1 && v[i + 1] == 'j' && v[i + 2] == '2' {
                Some(string_of_range(&v, 0, i))
            } else {
                None
            }
        },
        None => None,
    }
}

/// The contexts the message templates are rendered with.
pub open spec fn notification_vars(
    mailbox: Seq<char>,
    priority: Seq<char>,
    original_from: Seq<char>,
    original_subject: Seq<char>,
    original_date: Seq<char>,
    body_preview: Seq<char>,
    tracking_id: Seq<char>,
) -> Seq<(Seq<char>, Option<Seq<char>>)> {
    seq![
        ("mailbox"@, Some(mailbox)),
        ("priority"@, Some(priority)),
        ("original_from"@, Some(original_from)),
        ("original_subject"@, Some(original_subject)),
        ("original_date"@, Some(original_date)),
        ("body_preview"@, Some(body_preview)),
        ("tracking_id"@, Some(tracking_id)),
    ]
}

/// The context of a router acknowledgement.
pub open spec fn router_ack_vars(
    from: Seq<char>,
    to: Seq<char>,
    subject: Seq<char>,
    scheduled_at: Option<Seq<char>>,
    status: Seq<char>,
    tracking_id: Seq<char>,
) -> Seq<(Seq<char>, Option<Seq<char>>)> {
    seq![
        ("from"@, Some(from)),
        ("to"@, Some(to)),
        ("subject"@, Some(subject)),
        ("scheduled_at"@, scheduled_at),
        ("status"@, Some(status)),
        ("tracking_id"@, Some(tracking_id)),
    ]
}

/// What rendering the template `name` of `templates` with `vars` gives:
/// `None` when no template has that name, `Some(None)` when rendering
/// fails, else the text.
pub open spec fn rendering(
    templates: Seq<(Seq<char>, Seq<char>)>,
    name: Seq<char>,
    vars: Seq<(Seq<char>, Option<Seq<char>>)>,
) -> Option<Option<Seq<char>>> {
    if name_index(templates, name) is None {
        None
    } else {
        Some(jinja_output(source_map(templates), name, vars))
    }
}

/// Whether `r` is the outcome `o` of rendering the template `name`.
pub open spec fn rendered_as(r: Result<String, TemplateError>, o: Option<Option<Seq<char>>>, name: Seq<char>) -> bool {
    match o {
        None => r matches Err(TemplateError::NotFound(m)) && m@ == name,
        Some(None) => r matches Err(TemplateError::Render(m)) && m@ == name,
        Some(Some(s)) => r matches Ok(t) && t@ == s,
    }
}

/// Whether `h` is the branded HTML of a polished notification: the
/// announcement that names the mailbox in its subject and the date in its
/// sender card, under the PlausiDen theme.
pub open spec fn polished_html(
    h: Seq<char>,
    mailbox: Seq<char>,
    priority: Seq<char>,
    original_from: Seq<char>,
    original_subject: Seq<char>,
    original_date: Seq<char>,
    body_preview: Seq<char>,
    tracking_id: Seq<char>,
) -> bool {
    exists|d: EmailDocument, t: Theme|
        #[trigger] shows(d, t, h) && is_plausiden(t) && doc_view(d) == announcement_doc(
            "["@ + mailbox + "] "@ + original_subject,
            Some("Sent "@ + original_date),
            mailbox,
            priority,
            original_from,
            original_subject,
            body_preview,
            tracking_id,
        )
}

fn var(key: &str, value: &str) -> (r: (String, Option<String>))
    ensures
        r.0@ == key@,
        opt_text(r.1) == Some(value@),
{
    (owned(key), Some(owned(value)))
}

impl TemplateRenderer {
    #[verifier::type_invariant]
    closed spec fn names_distinct(self) -> bool {
        distinct_names(sources_view(self.templates@)) && all_compile(sources_view(self.templates@))
    }

    /// Loads inline templates, in order; a later one replaces an earlier
    /// one of the same name. Fails on the first that does not compile.
    pub fn from_strings(templates: &[(&str, &str)]) -> (r: Result<TemplateRenderer, TemplateError>)
        ensures
            match load(str_pairs(templates@)) {
                Ok(t) => r matches Ok(x) && x@ == t,
                Err(n) => r matches Err(TemplateError::Syntax(m)) && m@ == n,
            },
    {
        let mut entries: Vec<(String, String)> = Vec::new();
        let mut i: usize = 0;
        while i < templates.len()
            invariant
                i <= templates.len(),
                sources_view(entries@) == str_pairs(templates@).take(i as int),
            decreases templates.len() - i,
        {
            let (n, s) = templates[i];
            assert(str_pairs(templates@)[i as int] == (n@, s@));
            let ghost prev = entries@;
            entries.push((owned(n), owned(s)));
            assert(sources_view(entries@) =~= sources_view(prev).push((n@, s@)));
            assert(str_pairs(templates@).take(i + 1) =~= str_pairs(templates@).take(i as int).push((n@, s@)));
            i = i + 1;
            assert(sources_view(entries@) =~= str_pairs(templates@).take(i as int));
        }
        assert(str_pairs(templates@).take(templates.len() as int)
            =~= str_pairs(templates@));
        proof {
            lemma_load_distinct(sources_view(entries@));
            lemma_load_compiles(sources_view(entries@));
        }
        match load_all(entries) {
            Ok(list) => Ok(TemplateRenderer { templates: list }),
            Err(e) => Err(e),
        }
    }

    /// Loads the `.j2` files of a directory listing (file name, content),
    /// each under its file name without the extension.
    pub fn from_files(files: Vec<(String, String)>) -> (r: Result<TemplateRenderer, TemplateError>)
        ensures
            match load(j2_entries(sources_view(files@))) {
                Ok(t) => r matches Ok(x) && x@ == t,
                Err(n) => r matches Err(TemplateError::Syntax(m)) && m@ == n,
            },
    {
        let ghost f = sources_view(files@);
        let mut entries: Vec<(String, String)> = Vec::new();
        let mut i: usize = 0;
        while i < files.len()
            invariant
                i <= files.len(),
                f == sources_view(files@),
                sources_view(entries@) == j2_entries(f.take(i as int)),
            decreases files.len() - i,
        {
            assert(f.take(i + 1).drop_last() =~= f.take(i as int));
            match template_stem(files[i].0.as_str()) {
                Some(n) => {
                    entries.push((n, owned(files[i].1.as_str())));
                    assert(sources_view(entries@) =~= j2_entries(f.take(i + 1)));
                },
                None => {},
            }
            i = i + 1;
        }
        assert(f.take(files.len() as int) =~= f);
        proof {
            lemma_load_distinct(j2_entries(f));
            lemma_load_compiles(j2_entries(f));
        }
        match load_all(entries) {
            Ok(list) => Ok(TemplateRenderer { templates: list }),
            Err(e) => Err(e),
        }
    }

    /// Renders the template `name` with the context `vars`.
    pub fn render(&self, name: &str, vars: &Vec<(String, Option<String>)>) -> (r: Result<String, TemplateError>)
        ensures
            rendered_as(
                r,
                rendering(self@, name@, vars_view(vars@)),
                name@,
            ),
    {
        proof {
            use_type_invariant(self);
        }
        match find_name(&self.templates, name) {
            None => Err(TemplateError::NotFound(owned(name))),
            Some(_) => match jinja_render(&self.templates, name, vars) {
                Some(s) => Ok(s),
                None => Err(TemplateError::Render(owned(name))),
            },
        }
    }

    /// Renders `notification.txt` with the facts of a new message.
    pub fn render_notification(
        &self,
        mailbox: &str,
        priority: &str,
        original_from: &str,
        original_subject: &str,
        original_date: &str,
        body_preview: &str,
        tracking_id: &str,
    ) -> (r: Result<String, TemplateError>)
        ensures
            rendered_as(
                r,
                rendering(self@,
                "notification.txt"@,
                notification_vars(
                    mailbox@,
                    priority@,
                    original_from@,
                    original_subject@,
                    original_date@,
                    body_preview@,
                    tracking_id@,
                ),),
                "notification.txt"@,
            ),
    {
        let mut vars: Vec<(String, Option<String>)> = Vec::new();
        vars.push(var("mailbox", mailbox));
        vars.push(var("priority", priority));
        vars.push(var("original_from", original_from));
        vars.push(var("original_subject", original_subject));
        vars.push(var("original_date", original_date));
        vars.push(var("body_preview", body_preview));
        vars.push(var("tracking_id", tracking_id));
        assert(vars_view(vars@) =~= notification_vars(
            mailbox@,
            priority@,
            original_from@,
            original_subject@,
            original_date@,
            body_preview@,
            tracking_id@,
        ));
        self.render("notification.txt", &vars)
    }

    /// Renders `router_ack.txt` for a router command.
    pub fn render_router_ack(
        &self,
        from: &str,
        to: &str,
        subject: &str,
        scheduled_at: Option<&str>,
        status: &str,
        tracking_id: &str,
    ) -> (r: Result<String, TemplateError>)
        ensures
            rendered_as(
                r,
                rendering(self@,
                "router_ack.txt"@,
                router_ack_vars(
                    from@,
                    to@,
                    subject@,
                    match scheduled_at {
                        Some(s) => Some(s@),
                        None => None,
                    },
                    status@,
                    tracking_id@,
                ),),
                "router_ack.txt"@,
            ),
    {
        let mut vars: Vec<(String, Option<String>)> = Vec::new();
        vars.push(var("from", from));
        vars.push(var("to", to));
        vars.push(var("subject", subject));
        let at: Option<String> = match scheduled_at {
            Some(s) => Some(owned(s)),
            None => None,
        };
        vars.push((owned("scheduled_at"), at));
        vars.push(var("status", status));
        vars.push(var("tracking_id", tracking_id));
        assert(vars_view(vars@) =~= router_ack_vars(
            from@,
            to@,
            subject@,
            match scheduled_at {
                Some(s) => Some(s@),
                None => None,
            },
            status@,
            tracking_id@,
        ));
        self.render("router_ack.txt", &vars)
    }

    /// The names of the loaded templates.
    pub fn template_names(&self) -> (r: Vec<String>)
        ensures
            string_views(r@) == names_of(self@),
            forall|i: int, j: int| 0 <= i < j < r.len() ==> r@[i]@ != r@[j]@,
    {
        proof {
            use_type_invariant(self);
        }
        let mut out: Vec<String> = Vec::new();
        let mut i: usize = 0;
        while i < self.templates.len()
            invariant
                i <= self.templates.len(),
                string_views(out@) == names_of(self@).take(i as int),
            decreases self.templates.len() - i,
        {
            assert(names_of(self@)[i as int] == self.templates@[i as int].0@);
            let ghost prev = out@;
            out.push(owned(self.templates[i].0.as_str()));
            assert(string_views(out@) =~= string_views(prev).push(self.templates@[i as int].0@));
            assert(names_of(self@).take(i + 1) =~= names_of(self@).take(i as int).push(self.templates@[i as int].0@));
            i = i + 1;
            assert(string_views(out@) =~= names_of(self@).take(i as int));
        }
        assert(names_of(self@).take(self.templates.len() as int)
            =~= names_of(self@));
        assert forall|i: int, j: int| 0 <= i < j < out.len() implies out@[i]@ != out@[j]@ by {
            assert(string_views(out@)[i] == self@[i].0);
            assert(string_views(out@)[j] == self@[j].0);
        }
        out
    }

    /// The plain text from `notification.txt` and the branded HTML of the
    /// same facts.
    pub fn render_polished_notification(
        &self,
        mailbox: &str,
        priority: &str,
        original_from: &str,
        original_subject: &str,
        original_date: &str,
        body_preview: &str,
        tracking_id: &str,
    ) -> (r: Result<(String, String), TemplateError>)
        ensures
            match rendering(
                self@,
                "notification.txt"@,
                notification_vars(
                    mailbox@,
                    priority@,
                    original_from@,
                    original_subject@,
                    original_date@,
                    body_preview@,
                    tracking_id@,
                ),
            ) {
                None => r matches Err(TemplateError::NotFound(m)) && m@ == "notification.txt"@,
                Some(None) => r matches Err(TemplateError::Render(m)) && m@ == "notification.txt"@,
                Some(Some(s)) => r matches Ok((p, h)) && p@ == s && polished_html(
                    h@,
                    mailbox@,
                    priority@,
                    original_from@,
                    original_subject@,
                    original_date@,
                    body_preview@,
                    tracking_id@,
                ),
            },
    {
        let plain = match self.render_notification(
            mailbox,
            priority,
            original_from,
            original_subject,
            original_date,
            body_preview,
            tracking_id,
        ) {
            Ok(p) => p,
            Err(e) => return Err(e),
        };
        let d = polished_notification_document(
            mailbox,
            priority,
            original_from,
            original_subject,
            original_date,
            body_preview,
            tracking_id,
        );
        let t = Theme::plausiden();
        let h = crate::templates::render_html::render(&d, &t);
        assert(shows(d, t, h@));
        assert(polished_html(
            h@,
            mailbox@,
            priority@,
            original_from@,
            original_subject@,
            original_date@,
            body_preview@,
            tracking_id@,
        ));
        Ok((plain, h))
    }
}

} // verus!
