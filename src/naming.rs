//! Project ids and names derived from paths, and the checks on project ids.
use vstd::prelude::*;
use crate::registry::{RegistryError, RegistryFault};
use crate::text::opt_text;

verus! {

/// The last component of a path, where it has one that is valid UTF-8.
pub uninterp spec fn file_name_of(path: Seq<char>) -> Option<Seq<char>>;

/// A path with one more component appended.
pub uninterp spec fn joined_path(base: Seq<char>, name: Seq<char>) -> Seq<char>;

/// What `str::to_lowercase` makes of a text.
pub uninterp spec fn lower_of(s: Seq<char>) -> Seq<char>;

/// Relies on `std::path::Path::file_name` and `OsStr::to_str`: the last
/// component depends on the path text alone.
#[verifier::external_body]
pub(crate) fn path_file_name(path: &str) -> (r: Option<String>)
    ensures
        opt_text(r) == file_name_of(path@),
{
    match std::path::Path::new(path).file_name() {
        Some(name) => match name.to_str() {
            Some(t) => Some(t.to_string()),
            None => None,
        },
        None => None,
    }
}

/// Relies on `std::path::Path::join`, read back with `to_string_lossy`: the
/// result depends on the two texts alone.
#[verifier::external_body]
pub(crate) fn join_path(base: &str, name: &str) -> (r: String)
    ensures
        r@ == joined_path(base@, name@),
{
    std::path::Path::new(base).join(name).to_string_lossy().to_string()
}

/// Relies on `str::to_lowercase`: the result depends on the characters alone.
#[verifier::external_body]
pub(crate) fn lowercase(s: &str) -> (r: String)
    ensures
        r@ == lower_of(s@),
{
    s.to_lowercase()
}

/// Relies on `String::push`, which appends one character.
#[verifier::external_body]
pub(crate) fn push_char(s: &mut String, c: char)
    ensures
        final(s)@ == old(s)@.push(c),
{
    s.push(c)
}

/// A lowercase ASCII letter or an ASCII digit.
pub open spec fn slug_char(c: char) -> bool {
    (97 <= (c as u32) && (c as u32) <= 122) || (48 <= (c as u32) && (c as u32) <= 57)
}

/// A character allowed in a project id.
pub open spec fn id_char(c: char) -> bool {
    slug_char(c) || c == '-' || c == '_'
}

/// What a project id check decides: not empty, and made of allowed
/// characters only.
pub open spec fn project_id_fault(id: Seq<char>) -> Option<RegistryFault> {
    if id.len() == 0 {
        Some(RegistryFault::EmptyProjectId)
    } else if exists|i: int| 0 <= i < id.len() && !id_char(#[trigger] id[i]) {
        Some(RegistryFault::InvalidProjectId(id))
    } else {
        None
    }
}

fn is_slug_char(c: char) -> (r: bool)
    ensures
        r == slug_char(c),
{
    let v = c as u32;
    (97 <= v && v <= 122) || (48 <= v && v <= 57)
}

/// Refuses an empty project id, or one with characters other than
/// lowercase ASCII letters, digits, `-` and `_`.
pub fn validate_project_id(project_id: &str) -> (r: Result<(), RegistryError>)
    ensures
        match r {
            Ok(()) => project_id_fault(project_id@).is_none(),
            Err(e) => project_id_fault(project_id@) == Some(e@),
        },
{
    let n = project_id.unicode_len();
    if n == 0 {
        return Err(RegistryError::EmptyProjectId);
    }
    let mut i: usize = 0;
    while i < n
        invariant
            n == project_id@.len(),
            i <= n,
            forall|k: int| 0 <= k < i ==> id_char(#[trigger] project_id@[k]),
        decreases n - i,
    {
        let c = project_id.get_char(i);
        if !(is_slug_char(c) || c == '-' || c == '_') {
            assert(!id_char(project_id@[i as int]));
            return Err(RegistryError::InvalidProjectId { project_id: String::from_str(project_id) });
        }
        i += 1;
    }
    Ok(())
}

/// The name a project gets when none is configured: the last component of
/// its root, or `Project`.
pub open spec fn default_display_name(root: Seq<char>) -> Seq<char> {
    match file_name_of(root) {
        Some(n) => n,
        None => "Project"@,
    }
}

/// The name a project gets when none is configured.
pub fn derive_default_display_name(root_path: &str) -> (r: String)
    ensures
        r@ == default_display_name(root_path@),
{
    match path_file_name(root_path) {
        Some(n) => n,
        None => String::from_str("Project"),
    }
}

/// Each character kept if it is a lowercase letter or digit, else `-`.
pub open spec fn slugged(s: Seq<char>) -> Seq<char> {
    s.map_values(|c: char| if slug_char(c) { c } else { '-' })
}

/// A text without its leading dashes.
pub open spec fn strip_leading_dashes(s: Seq<char>) -> Seq<char>
    decreases s.len(),
{
    if s.len() > 0 && s[0] == '-' {
        strip_leading_dashes(s.drop_first())
    } else {
        s
    }
}

/// A text without its trailing dashes.
pub open spec fn strip_trailing_dashes(s: Seq<char>) -> Seq<char>
    decreases s.len(),
{
    if s.len() > 0 && s.last() == '-' {
        strip_trailing_dashes(s.drop_last())
    } else {
        s
    }
}

/// The id a root suggests before it is made unique: its last component
/// lowercased, with every other character turned into `-` and dashes
/// trimmed from both ends; `project` when nothing is left.
pub open spec fn base_project_id(root: Seq<char>) -> Seq<char> {
    let name = match file_name_of(root) {
        Some(n) => n,
        None => "project"@,
    };
    let t = strip_trailing_dashes(strip_leading_dashes(slugged(lower_of(name))));
    if t.len() == 0 {
        "project"@
    } else {
        t
    }
}

/// The character of a decimal digit.
pub open spec fn digit_char(d: nat) -> char {
    if d == 0 {
        '0'
    } else if d == 1 {
        '1'
    } else if d == 2 {
        '2'
    } else if d == 3 {
        '3'
    } else if d == 4 {
        '4'
    } else if d == 5 {
        '5'
    } else if d == 6 {
        '6'
    } else if d == 7 {
        '7'
    } else if d == 8 {
        '8'
    } else {
        '9'
    }
}

/// The decimal text of a number.
pub open spec fn decimal(n: nat) -> Seq<char>
    decreases n,
{
    if n < 10 {
        seq![digit_char(n)]
    } else {
        decimal(n / 10).push(digit_char(n % 10))
    }
}

/// A base id with a numeric suffix.
pub open spec fn suffixed(base: Seq<char>, k: nat) -> Seq<char> {
    base + "-"@ + decimal(k)
}

/// Some existing id equals the text.
pub open spec fn taken(existing: Seq<Seq<char>>, id: Seq<char>) -> bool {
    exists|i: int| 0 <= i < existing.len() && #[trigger] existing[i] == id
}

/// The views of a list of texts.
pub open spec fn texts_view(v: Seq<String>) -> Seq<Seq<char>> {
    v.map_values(|s: String| s@)
}

/// The first of `base-k`, `base-(k+1)`, ... that is not taken, stopping at
/// the last `u32` suffix.
pub open spec fn first_free(base: Seq<char>, existing: Seq<Seq<char>>, k: nat) -> Seq<char>
    decreases u32::MAX - k,
{
    if k >= u32::MAX {
        suffixed(base, u32::MAX as nat)
    } else if !taken(existing, suffixed(base, k)) {
        suffixed(base, k)
    } else {
        first_free(base, existing, k + 1)
    }
}

/// The id a new project at `root` gets among the existing ids.
pub open spec fn default_project_id(root: Seq<char>, existing: Seq<Seq<char>>) -> Seq<char> {
    let base = base_project_id(root);
    if !taken(existing, base) {
        base
    } else {
        first_free(base, existing, 2)
    }
}

fn digit_of(d: u32) -> (r: char)
    requires
        d < 10,
    ensures
        r == digit_char(d as nat),
{
    if d == 0 {
        '0'
    } else if d == 1 {
        '1'
    } else if d == 2 {
        '2'
    } else if d == 3 {
        '3'
    } else if d == 4 {
        '4'
    } else if d == 5 {
        '5'
    } else if d == 6 {
        '6'
    } else if d == 7 {
        '7'
    } else if d == 8 {
        '8'
    } else {
        '9'
    }
}

/// The decimal text of a number.
pub fn decimal_text(n: u32) -> (r: String)
    ensures
        r@ == decimal(n as nat),
{
    let mut digits: Vec<char> = Vec::new();
    let mut m: u32 = n;
    while m >= 10
        invariant
            decimal(n as nat) == decimal(m as nat) + digits@,
        decreases m,
    {
        let ghost before = digits@;
        digits.insert(0, digit_of(m % 10));
        assert(decimal(m as nat) == decimal((m / 10) as nat).push(digit_char((m % 10) as nat)));
        assert(decimal((m / 10) as nat) + digits@ =~= decimal(m as nat) + before);
        m = m / 10;
    }
    digits.insert(0, digit_of(m));
    assert(digits@ =~= decimal(n as nat));
    let mut r = String::new();
    let mut i: usize = 0;
    while i < digits.len()
        invariant
            i <= digits@.len(),
            r@ == digits@.subrange(0, i as int),
        decreases digits@.len() - i,
    {
        push_char(&mut r, digits[i]);
        assert(digits@.subrange(0, i + 1) =~= digits@.subrange(0, i as int).push(digits@[i as int]));
        i += 1;
    }
    assert(digits@.subrange(0, digits@.len() as int) =~= digits@);
    r
}

fn is_taken(existing_ids: &Vec<String>, id: &String) -> (r: bool)
    ensures
        r == taken(texts_view(existing_ids@), id@),
{
    let ghost ids = texts_view(existing_ids@);
    let mut i: usize = 0;
    while i < existing_ids.len()
        invariant
            ids == texts_view(existing_ids@),
            i <= existing_ids@.len(),
            forall|k: int| 0 <= k < i ==> #[trigger] ids[k] != id@,
        decreases existing_ids@.len() - i,
    {
        if existing_ids[i] == *id {
            assert(ids[i as int] == id@);
            return true;
        }
        i += 1;
    }
    false
}

fn base_id_of(root_path: &str) -> (r: String)
    ensures
        r@ == base_project_id(root_path@),
{
    let name = match path_file_name(root_path) {
        Some(n) => n,
        None => String::from_str("project"),
    };
    let lower = lowercase(name.as_str());
    let n = lower.as_str().unicode_len();
    let mut slug = String::new();
    let mut i: usize = 0;
    while i < n
        invariant
            n == lower@.len(),
            i <= n,
            slug@ == slugged(lower@).subrange(0, i as int),
        decreases n - i,
    {
        let c = lower.as_str().get_char(i);
        let d = if is_slug_char(c) {
            c
        } else {
            '-'
        };
        push_char(&mut slug, d);
        assert(slugged(lower@).subrange(0, i + 1) =~= slugged(lower@).subrange(0, i as int).push(d));
        i += 1;
    }
    assert(slugged(lower@).subrange(0, n as int) =~= slugged(lower@));
    let ghost full = slug@;
    let mut start: usize = 0;
    assert(full.subrange(0, n as int) =~= full);
    while start < n && slug.as_str().get_char(start) == '-'
        invariant
            full == slug@,
            n == full.len(),
            start <= n,
            strip_leading_dashes(full) == strip_leading_dashes(full.subrange(start as int, n as int)),
        decreases n - start,
    {
        assert(full.subrange(start as int, n as int).drop_first() =~= full.subrange(start + 1, n as int));
        start += 1;
    }
    let ghost lead = full.subrange(start as int, n as int);
    assert(strip_leading_dashes(full) == lead);
    let mut end: usize = n;
    assert(lead.subrange(0, (n - start) as int) =~= lead);
    while end > start && slug.as_str().get_char(end - 1) == '-'
        invariant
            full == slug@,
            n == full.len(),
            start <= end <= n,
            lead == full.subrange(start as int, n as int),
            strip_trailing_dashes(lead) == strip_trailing_dashes(full.subrange(start as int, end as int)),
        decreases end,
    {
        assert(full.subrange(start as int, end as int).drop_last() =~= full.subrange(
            start as int,
            end - 1,
        ));
        end -= 1;
    }
    let ghost trimmed_ghost = full.subrange(start as int, end as int);
    assert(strip_trailing_dashes(lead) == trimmed_ghost);
    if end == start {
        return String::from_str("project");
    }
    let t = slug.as_str().substring_char(start, end);
    String::from_str(t)
}

/// The suffixed form of a base id.
fn suffixed_text(base: &String, k: u32) -> (r: String)
    ensures
        r@ == suffixed(base@, k as nat),
{
    let mut r = base.clone();
    r.append("-");
    let d = decimal_text(k);
    r.append(d.as_str());
    r
}

/// The id a new project at `root_path` gets: the base id its root
/// suggests, or the first of `base-2`, `base-3`, ... that no existing
/// project has.
pub fn derive_default_project_id(root_path: &str, existing_ids: &Vec<String>) -> (r: String)
    ensures
        r@ == default_project_id(root_path@, texts_view(existing_ids@)),
{
    let ghost ids = texts_view(existing_ids@);
    let base = base_id_of(root_path);
    if !is_taken(existing_ids, &base) {
        return base;
    }
    let mut suffix: u32 = 2;
    loop
        invariant
            2 <= suffix,
            ids == texts_view(existing_ids@),
            base@ == base_project_id(root_path@),
            taken(ids, base@),
            first_free(base@, ids, 2) == first_free(base@, ids, suffix as nat),
        decreases u32::MAX - suffix,
    {
        let next = suffixed_text(&base, suffix);
        if !is_taken(existing_ids, &next) || suffix == u32::MAX {
            return next;
        }
        suffix = suffix + 1;
    }
}

} // verus!
