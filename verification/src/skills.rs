//! Skills: their names, their `skill.md` manifests, and the metadata a new skill
//! takes.

use vstd::prelude::*;

use crate::containers::{new_uuid, now_rfc3339, uuid_shaped};
use crate::error::AppError;
use crate::text::{chars_of, has_prefix, has_suffix, string_of, sub_chars, trim_start, trim_start_spec};

verus! {

// ---------------------------------------------------------------------------
// Skill names
// ---------------------------------------------------------------------------

/// `char::is_alphanumeric`: whether `c` has the Unicode `Alphabetic` property or
/// a numeric general category.
pub uninterp spec fn alphanumeric(c: char) -> bool;

/// std's `char::is_alphanumeric`; its result is the named `alphanumeric` of the
/// character (the Unicode tables behind it are not spelled out here).
#[verifier::external_body]
fn char_is_alphanumeric(c: char) -> (r: bool)
    ensures
        r == alphanumeric(c),
{
    c.is_alphanumeric()
}

/// A character that a skill name may hold: alphanumeric, `-` or `_`.
pub open spec fn skill_name_char(c: char) -> bool {
    alphanumeric(c) || c == '-' || c == '_'
}

/// A skill name: not empty, and made of alphanumerics, hyphens and underscores.
pub open spec fn valid_skill_name(name: Seq<char>) -> bool {
    name.len() > 0 && forall|i: int| 0 <= i < name.len() ==> skill_name_char(#[trigger] name[i])
}

/// Whether `name` is a valid skill name.
pub fn is_valid_skill_name(name: &str) -> (r: bool)
    ensures
        r == valid_skill_name(name@),
{
    let v = chars_of(name);
    if v.len() == 0 {
        return false;
    }
    let mut i: usize = 0;
    while i < v.len()
        invariant
            i <= v@.len(),
            v@ == name@,
            forall|j: int| 0 <= j < i ==> skill_name_char(#[trigger] v@[j]),
        decreases v@.len() - i,
    {
        let c = v[i];
        if !(char_is_alphanumeric(c) || c == '-' || c == '_') {
            assert(!skill_name_char(v@[i as int]));
            return false;
        }
        i += 1;
    }
    true
}

/// The error for a name that is not a valid skill name.
pub fn invalid_name_error() -> (r: AppError)
    ensures
        r is BadRequest,
        r.detail_view() == "name must be alphanumeric with hyphens or underscores"@,
{
    AppError::BadRequest(String::from_str("name must be alphanumeric with hyphens or underscores"))
}

/// The error for a name that another skill holds.
pub fn name_taken_error() -> (r: AppError)
    ensures
        r is BadRequest,
        r.detail_view() == "A skill with this name already exists"@,
{
    AppError::BadRequest(String::from_str("A skill with this name already exists"))
}

/// The error for a new skill that has no name.
pub fn name_required_error() -> (r: AppError)
    ensures
        r is BadRequest,
        r.detail_view() == "name is required (provide in form or skill.md)"@,
{
    AppError::BadRequest(String::from_str("name is required (provide in form or skill.md)"))
}

// ---------------------------------------------------------------------------
// The metadata of a new skill
// ---------------------------------------------------------------------------

pub open spec fn opt_view(o: Option<String>) -> Option<Seq<char>> {
    match o {
        Some(s) => Some(s@),
        None => None,
    }
}

/// The name a new skill takes: the form's, else the manifest's.
pub open spec fn chosen_name(form_name: Option<String>, manifest: Option<(String, Option<String>)>) -> Option<Seq<char>> {
    match form_name {
        Some(n) => Some(n@),
        None => match manifest {
            Some((n, _)) => Some(n@),
            None => None,
        },
    }
}

/// The description a new skill takes: the form's; where the form gives neither a
/// name nor a description, the manifest's; else none (the empty text).
pub open spec fn chosen_description(
    form_name: Option<String>,
    form_description: Option<String>,
    manifest: Option<(String, Option<String>)>,
) -> Seq<char> {
    match form_description {
        Some(d) => d@,
        None => match (form_name, manifest) {
            (None, Some((_, Some(d)))) => d@,
            _ => Seq::empty(),
        },
    }
}

/// The name and description of a new skill, from the upload form and, where the
/// form names none, from the `skill.md` manifest of its archive. Fails where no
/// name is given, or where the name is not a valid skill name.
pub fn resolve_skill_metadata(
    form_name: Option<String>,
    form_description: Option<String>,
    manifest: Option<(String, Option<String>)>,
) -> (r: Result<(String, String), AppError>)
    ensures
        match chosen_name(form_name, manifest) {
            None => r matches Err(e) && e is BadRequest && e.detail_view()
                == "name is required (provide in form or skill.md)"@,
            Some(n) => if valid_skill_name(n) {
                r matches Ok((name, description)) && name@ == n && description@
                    == chosen_description(form_name, form_description, manifest)
            } else {
                r matches Err(e) && e is BadRequest && e.detail_view()
                    == "name must be alphanumeric with hyphens or underscores"@
            },
        },
{
    let ghost fname = form_name;
    let ghost fdesc = form_description;
    let ghost man = manifest;
    let mut name = form_name;
    let mut description = form_description;
    if name.is_none() {
        if let Some((manifest_name, manifest_desc)) = manifest {
            name = Some(manifest_name);
            if description.is_none() {
                description = manifest_desc;
            }
        }
    }
    let name = match name {
        Some(n) => n,
        None => {
            return Err(name_required_error());
        },
    };
    if !is_valid_skill_name(name.as_str()) {
        return Err(invalid_name_error());
    }
    let description = match description {
        Some(d) => d,
        None => String::new(),
    };
    Ok((name, description))
}

/// Whether renaming the skill `id` to `new_name` may go ahead: it may where no
/// new name is asked for; else the name must be valid, and no other skill than
/// `id` may hold it (`holder` is the id of the skill that holds it, if any).
pub fn check_skill_rename(id: &str, new_name: Option<&str>, holder: Option<&str>) -> (r: Result<(), AppError>)
    ensures
        match new_name {
            None => r is Ok,
            Some(n) => if !valid_skill_name(n@) {
                r matches Err(e) && e is BadRequest && e.detail_view()
                    == "name must be alphanumeric with hyphens or underscores"@
            } else if holder matches Some(h) && h@ != id@ {
                r matches Err(e) && e is BadRequest && e.detail_view()
                    == "A skill with this name already exists"@
            } else {
                r is Ok
            },
        },
{
    match new_name {
        None => Ok(()),
        Some(n) => {
            if !is_valid_skill_name(n) {
                return Err(invalid_name_error());
            }
            match holder {
                Some(h) => if crate::text::chars_eq(&chars_of(h), &chars_of(id)) {
                    Ok(())
                } else {
                    Err(name_taken_error())
                },
                None => Ok(()),
            }
        },
    }
}

/// The archive of a new skill, which the upload must carry.
pub fn require_upload(file: Option<Vec<u8>>) -> (r: Result<Vec<u8>, AppError>)
    ensures
        match file {
            Some(b) => r matches Ok(v) && v@ == b@,
            None => r matches Err(e) && e is BadRequest && e.detail_view() == "file is required"@,
        },
{
    match file {
        Some(b) => Ok(b),
        None => Err(AppError::BadRequest(String::from_str("file is required"))),
    }
}

/// Whether a new skill may take its name: not where a skill already holds it
/// (`holder` is the id of that skill, if any).
pub fn check_new_skill_name(holder: Option<&str>) -> (r: Result<(), AppError>)
    ensures
        match holder {
            None => r is Ok,
            Some(_) => r matches Err(e) && e is BadRequest && e.detail_view()
                == "A skill with this name already exists"@,
        },
{
    match holder {
        None => Ok(()),
        Some(_) => Err(name_taken_error()),
    }
}

/// A stored skill.
#[derive(Debug, Clone)]
pub struct Skill {
    pub id: String,
    pub name: String,
    pub description: String,
    pub created_at: String,
    pub updated_at: String,
}

/// A fresh random identifier for a new skill.
pub fn new_skill_id() -> (r: String)
    ensures
        uuid_shaped(r@),
{
    new_uuid()
}

impl Skill {
    /// The new skill `id` with this name and description, created and updated at `now`.
    pub fn create_at(id: String, name: String, description: String, now: String) -> (r: Skill)
        ensures
            r.id == id,
            r.name == name,
            r.description == description,
            r.created_at == now,
            r.updated_at == now,
    {
        Skill { id, name, description, created_at: now.clone(), updated_at: now }
    }

    /// The new skill `id` with this name and description, stamped with the current time.
    pub fn create(id: String, name: String, description: String) -> (r: Skill)
        ensures
            r.id == id,
            r.name == name,
            r.description == description,
            r.created_at == r.updated_at,
            has_suffix(r.created_at@, "+00:00"@),
    {
        let now = now_rfc3339();
        Self::create_at(id, name, description, now)
    }

    /// The directory that holds the files of the skill `id` under `base`.
    pub fn directory(base: &str, id: &str) -> (r: String)
        ensures
            r@ == base@ + "/"@ + id@,
    {
        let mut r = String::from_str(base);
        r.append("/");
        r.append(id);
        r
    }
}

/// The parts of an upload form that a new skill reads.
#[derive(Debug, Clone, Copy, PartialEq, Eq, Structural)]
pub enum FormField {
    Name,
    Description,
    File,
    Other,
}

/// Which part of the skill form a multipart field with this name fills.
pub fn form_field(field_name: &str) -> (r: FormField)
    ensures
        r == (if field_name@ == "name"@ {
            FormField::Name
        } else if field_name@ == "description"@ {
            FormField::Description
        } else if field_name@ == "file"@ {
            FormField::File
        } else {
            FormField::Other
        }),
{
    let v = chars_of(field_name);
    if crate::text::chars_eq(&v, &chars_of("name")) {
        FormField::Name
    } else if crate::text::chars_eq(&v, &chars_of("description")) {
        FormField::Description
    } else if crate::text::chars_eq(&v, &chars_of("file")) {
        FormField::File
    } else {
        FormField::Other
    }
}

// ---------------------------------------------------------------------------
// The skill.md manifest
// ---------------------------------------------------------------------------

/// The code of `c` with an upper-case ASCII letter taken to lower case.
pub open spec fn ascii_lower(c: char) -> int {
    if 'A' <= c && c <= 'Z' {
        (c as u32) + 32
    } else {
        c as u32 as int
    }
}

/// Equality up to the case of ASCII letters (`str::eq_ignore_ascii_case`).
pub open spec fn eq_ignore_ascii_case_spec(a: Seq<char>, b: Seq<char>) -> bool {
    a.len() == b.len() && forall|i: int| 0 <= i < a.len() ==> ascii_lower(#[trigger] a[i]) == ascii_lower(b[i])
}

fn lower(c: char) -> (r: u32)
    ensures
        r == ascii_lower(c),
{
    if 'A' <= c && c <= 'Z' {
        (c as u32) + 32
    } else {
        c as u32
    }
}

/// Whether `a` and `b` are equal up to the case of ASCII letters.
pub fn eq_ignore_ascii_case(a: &str, b: &str) -> (r: bool)
    ensures
        r == eq_ignore_ascii_case_spec(a@, b@),
{
    let x = chars_of(a);
    let y = chars_of(b);
    if x.len() != y.len() {
        return false;
    }
    let mut i: usize = 0;
    while i < x.len()
        invariant
            i <= x@.len(),
            x@ == a@,
            y@ == b@,
            x@.len() == y@.len(),
            forall|j: int| 0 <= j < i ==> ascii_lower(#[trigger] x@[j]) == ascii_lower(y@[j]),
        decreases x@.len() - i,
    {
        if lower(x[i]) != lower(y[i]) {
            return false;
        }
        i += 1;
    }
    true
}

/// Whether a file of a skill's archive is its manifest: `skill.md` in any case.
pub fn is_manifest_file(file_name: &str) -> (r: bool)
    ensures
        r == eq_ignore_ascii_case_spec(file_name@, "skill.md"@),
{
    eq_ignore_ascii_case(file_name, "skill.md")
}

/// Whether `p` occurs in `s` at position `i`.
pub open spec fn occurs_at(s: Seq<char>, p: Seq<char>, i: int) -> bool {
    0 <= i && i + p.len() <= s.len() && s.subrange(i, i + p.len()) == p
}

/// The first position from `i` on where `p` occurs in `s`.
pub open spec fn find_from(s: Seq<char>, p: Seq<char>, i: int) -> Option<int>
    decreases s.len() - i,
{
    if i < 0 || i + p.len() > s.len() {
        None
    } else if occurs_at(s, p, i) {
        Some(i)
    } else if i >= s.len() {
        // Not reached: past the last character only the empty pattern fits, and it occurs.
        None
    } else {
        find_from(s, p, i + 1)
    }
}

proof fn lemma_find_from_occurs(s: Seq<char>, p: Seq<char>, i: int)
    ensures
        find_from(s, p, i) matches Some(k) ==> occurs_at(s, p, k) && k >= i,
    decreases s.len() - i,
{
    if !(i < 0 || i + p.len() > s.len()) && !occurs_at(s, p, i) && i < s.len() {
        lemma_find_from_occurs(s, p, i + 1);
    }
}

/// The first position where `p` occurs in `s` (what `str::find` gives, counted in
/// characters).
pub open spec fn find_spec(s: Seq<char>, p: Seq<char>) -> Option<int> {
    find_from(s, p, 0)
}

fn occurs_at_exec(s: &[char], p: &[char], i: usize) -> (r: bool)
    requires
        i + p@.len() <= s@.len(),
    ensures
        r == occurs_at(s@, p@, i as int),
{
    let mut j: usize = 0;
    while j < p.len()
        invariant
            i + p@.len() <= s@.len(),
            i + p.len() <= s.len(),
            j <= p@.len(),
            forall|k: int| 0 <= k < j ==> s@[i + k] == p@[k],
        decreases p@.len() - j,
    {
        if s[i + j] != p[j] {
            assert(s@.subrange(i as int, i + p@.len())[j as int] != p@[j as int]);
            return false;
        }
        j += 1;
    }
    assert(s@.subrange(i as int, i + p@.len()) =~= p@);
    true
}

/// The first position where `p` occurs in `s`.
pub fn find(s: &[char], p: &[char]) -> (r: Option<usize>)
    ensures
        match r {
            Some(i) => find_spec(s@, p@) == Some(i as int),
            None => find_spec(s@, p@) is None,
        },
{
    if p.len() > s.len() {
        return None;
    }
    let last = s.len() - p.len();
    let mut i: usize = 0;
    while i <= last
        invariant
            p@.len() <= s@.len(),
            last == s@.len() - p@.len(),
            i <= last + 1,
            find_spec(s@, p@) == find_from(s@, p@, i as int),
        decreases last + 1 - i,
    {
        if occurs_at_exec(s, p, i) {
            return Some(i);
        }
        if i >= s.len() {
            return None;
        }
        i += 1;
    }
    None
}

/// The YAML block that opens a manifest: after leading whitespace the text must
/// begin with `---`; the block runs from there to the first line that begins with
/// `---`.
pub open spec fn frontmatter_view(content: Seq<char>) -> Option<Seq<char>> {
    let t = trim_start_spec(content);
    if has_prefix(t, "---"@) {
        let rest = t.skip("---"@.len() as int);
        match find_spec(rest, "\n---"@) {
            Some(end) => Some(rest.take(end)),
            None => None,
        }
    } else {
        None
    }
}

/// The YAML front matter of a manifest, if it has one.
pub fn frontmatter(content: &str) -> (r: Option<String>)
    ensures
        opt_view(r) == frontmatter_view(content@),
{
    let all = chars_of(content);
    let t = trim_start(&all);
    let dashes = chars_of("---");
    if !crate::text::starts_with(&t, &dashes) {
        return None;
    }
    let rest = sub_chars(&t, dashes.len(), t.len());
    assert(rest@ =~= t@.skip("---"@.len() as int));
    match find(&rest, &chars_of("\n---")) {
        Some(end) => {
            proof {
                lemma_find_from_occurs(rest@, "\n---"@, 0);
            }
            let block = sub_chars(&rest, 0, end);
            assert(block@ =~= rest@.take(end as int));
            Some(string_of(&block))
        },
        None => None,
    }
}

/// `find_from` gives the first occurrence from `i` on: none lies before it, and
/// where it gives none, none lies at or after `i`.
proof fn lemma_find_from_first(s: Seq<char>, p: Seq<char>, i: int)
    requires
        0 <= i,
    ensures
        find_from(s, p, i) matches Some(k) ==> forall|j: int| i <= j < k ==> !#[trigger] occurs_at(s, p, j),
        find_from(s, p, i) is None ==> forall|j: int| i <= j ==> !#[trigger] occurs_at(s, p, j),
    decreases s.len() - i,
{
    if !(i < 0 || i + p.len() > s.len()) && !occurs_at(s, p, i) && i < s.len() {
        lemma_find_from_first(s, p, i + 1);
    }
}

/// The front matter ends at the first line that begins with `---`: where it is
/// `b`, the text (after leading whitespace) begins with `---`, then `b`, then
/// `\n---`, and `\n---` occurs nowhere in `b` nor straddles its end. Where the
/// text begins with `---` and `\n---` follows somewhere, there is front matter.
pub proof fn lemma_frontmatter_ends_at_first_closing(content: Seq<char>)
    ensures
        frontmatter_view(content) matches Some(b) ==> {
            &&& has_prefix(trim_start_spec(content), "---"@ + b + "\n---"@)
            &&& forall|j: int|
                0 <= j < b.len() ==> #[trigger] (b + "\n---"@).subrange(j, j + "\n---"@.len()) != "\n---"@
        },
        has_prefix(trim_start_spec(content), "---"@) && (exists|j: int|
            #[trigger] occurs_at(trim_start_spec(content).skip("---"@.len() as int), "\n---"@, j))
            ==> frontmatter_view(content) is Some,
{
    let t = trim_start_spec(content);
    let d = "---"@;
    let pat = "\n---"@;
    if has_prefix(t, d) {
        let rest = t.skip(d.len() as int);
        lemma_find_from_first(rest, pat, 0);
        lemma_find_from_occurs(rest, pat, 0);
        if let Some(end) = find_spec(rest, pat) {
            let b = rest.take(end);
            let f = b + pat;
            assert(f =~= rest.subrange(0, end + pat.len()));
            assert(t.take((d + f).len() as int) =~= d + f);
            assert(d + b + pat =~= d + f);
            assert forall|j: int| 0 <= j < b.len() implies #[trigger] f.subrange(j, j + pat.len()) != pat by {
                assert(!occurs_at(rest, pat, j));
                assert(f.subrange(j, j + pat.len()) =~= rest.subrange(j, j + pat.len()));
            }
        }
    }
}

/// A skill name is valid exactly where it is not empty and each of its characters
/// is one that `char::is_alphanumeric` accepts (upper-case letters as much as
/// lower-case ones), `-` or `_`.
pub proof fn lemma_valid_skill_name_chars(name: Seq<char>)
    ensures
        valid_skill_name(name) <==> (name.len() > 0 && forall|i: int|
            0 <= i < name.len() ==> (alphanumeric(#[trigger] name[i]) || name[i] == '-' || name[i] == '_')),
{
}

/// Two valid names joined by `-` or `_` make a valid name.
pub proof fn lemma_valid_skill_names_join(a: Seq<char>, b: Seq<char>, sep: char)
    requires
        valid_skill_name(a),
        valid_skill_name(b),
        sep == '-' || sep == '_',
    ensures
        valid_skill_name(a + seq![sep] + b),
{
    let n = a + seq![sep] + b;
    assert forall|i: int| 0 <= i < n.len() implies skill_name_char(#[trigger] n[i]) by {
        if i < a.len() {
            assert(n[i] == a[i]);
        } else if i == a.len() {
            assert(n[i] == sep);
        } else {
            assert(n[i] == b[i - a.len() - 1]);
        }
    }
}

} // verus!
