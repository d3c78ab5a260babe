use vstd::prelude::*;

use crate::errors::{MountMateError, validation_error};
use crate::ids::{is_randomness_error, is_uuid_text, new_uuid};
use crate::text::{
    CharClass, chars_of, concat, contains_char, eq_ignore_ascii_case, ascii_lower, is_ascii_alpha,
    is_ascii_alphabetic, is_blank, owned, push_char, strip_end, strip_start, trim_start, to_upper_char, trim, trim_char,
    trim_end_matches, trim_matches, trim_ws, upper_char, lemma_trim_ws_idempotent,
};

verus! {

/// A saved share: where it is, who logs in, and where it is mounted.
/// It holds no password.
#[derive(Debug)]
pub struct Profile {
    pub id: String,
    pub display_name: String,
    pub server: String,
    pub share: String,
    pub domain: String,
    pub username: String,
    pub default_drive_letter: String,
    pub mount_name: String,
}

impl Profile {
    /// A copy of this profile.
    pub fn duplicate(&self) -> (r: Profile)
        ensures
            r == *self,
    {
        Profile {
            id: self.id.clone(),
            display_name: self.display_name.clone(),
            server: self.server.clone(),
            share: self.share.clone(),
            domain: self.domain.clone(),
            username: self.username.clone(),
            default_drive_letter: self.default_drive_letter.clone(),
            mount_name: self.mount_name.clone(),
        }
    }
}

/// An import package as read from its JSON text, before validation.
#[derive(Debug)]
pub struct ImportConfig {
    pub schema_version: u8,
    pub display_name: String,
    pub server: String,
    pub share: String,
    pub domain: String,
    pub username: String,
    pub password: String,
    pub default_drive_letter: String,
    pub mount_name: String,
}

/// The saved profiles.
#[derive(Debug)]
pub struct ProfileStore {
    pub profiles: Vec<Profile>,
}

impl ProfileStore {
    /// A store without profiles.
    pub fn new() -> (r: ProfileStore)
        ensures
            r.profiles@.len() == 0,
    {
        ProfileStore { profiles: Vec::new() }
    }
}

/// The drive letter that an import package gets when it names none.
pub fn default_drive_letter() -> (r: String)
    ensures
        r@ == "Z"@,
{
    owned("Z")
}

// ---------------------------------------------------------------------------
// Field validation
// ---------------------------------------------------------------------------

/// A result in the library's terms agrees with an outcome stated over text:
/// `Ok` with that text, or a validation error with that message.
pub open spec fn agrees(r: Result<String, MountMateError>, o: Result<Seq<char>, Seq<char>>) -> bool {
    match o {
        Ok(s) => r matches Ok(x) && x@ == s,
        Err(m) => r matches Err(MountMateError::Validation(x)) && x@ == m,
    }
}

/// The message for a required field that is blank, if it is.
pub open spec fn required_error(field: Seq<char>, value: Seq<char>) -> Option<Seq<char>> {
    if trim_ws(value).len() == 0 {
        Some(field + " 不能为空。"@)
    } else {
        None
    }
}

/// Refuses a field that is empty once trimmed.
pub fn validate_required(field: &str, value: &str) -> (r: Result<(), MountMateError>)
    ensures
        match required_error(field@, value@) {
            Some(m) => r matches Err(MountMateError::Validation(x)) && x@ == m,
            None => r is Ok,
        },
{
    if is_blank(value) {
        return Err(MountMateError::Validation(concat(field, " 不能为空。")));
    }
    Ok(())
}

/// The drive letter that a configured value stands for: trimmed, without
/// trailing colons, one ASCII letter, upper-cased.
pub open spec fn drive_letter_outcome(value: Seq<char>) -> Result<Seq<char>, Seq<char>> {
    let v = strip_end(trim_ws(value), CharClass::Only(':'));
    if v.len() == 0 {
        Err("defaultDriveLetter 不能为空，例如 Z。"@)
    } else if v.len() > 1 || !is_ascii_alpha(v[0]) {
        Err("defaultDriveLetter 必须是单个英文字母，例如 Z。"@)
    } else {
        Ok(seq![upper_char(v[0])])
    }
}

/// Turns `" z: "` into `"Z"`; refuses anything that is not a single letter.
pub fn normalize_drive_letter(value: &str) -> (r: Result<String, MountMateError>)
    ensures
        agrees(r, drive_letter_outcome(value@)),
{
    let trimmed = trim(value);
    let stripped = trim_end_matches(trimmed.as_str(), ':');
    let v = chars_of(stripped.as_str());
    if v.len() == 0 {
        return Err(validation_error("defaultDriveLetter 不能为空，例如 Z。"));
    }
    let letter = v[0];
    if v.len() > 1 || !is_ascii_alphabetic(letter) {
        return Err(validation_error("defaultDriveLetter 必须是单个英文字母，例如 Z。"));
    }
    let mut out = String::new();
    push_char(&mut out, to_upper_char(letter));
    Ok(out)
}

/// A normalized drive letter is its own normal form.
pub proof fn lemma_drive_letter_normal_form(value: Seq<char>)
    requires
        drive_letter_outcome(value) is Ok,
    ensures
        drive_letter_outcome(drive_letter_outcome(value)->Ok_0) == drive_letter_outcome(value),
{
    let d = drive_letter_outcome(value)->Ok_0;
    let u = d[0];
    assert(('A' <= u && u <= 'Z'));
    let k = CharClass::Whitespace;
    assert(strip_start(d.drop_first(), k) =~= d.drop_first());
    assert(strip_start(d, k) == d);
    assert(strip_end(d.drop_last(), k) =~= d.drop_last());
    assert(strip_end(d, k) == d);
    let c = CharClass::Only(':');
    assert(strip_end(d.drop_last(), c) =~= d.drop_last());
    assert(strip_end(d, c) == d);
}

/// The mount name that a configured value stands for: trimmed, non-empty,
/// and without `/`, `:` or NUL.
pub open spec fn mount_name_outcome(value: Seq<char>) -> Result<Seq<char>, Seq<char>> {
    let v = trim_ws(value);
    if v.len() == 0 || v.contains('/') || v.contains(':') || v.contains('\0') {
        Err("mountName 不能包含 /、: 或空字符。"@)
    } else {
        Ok(v)
    }
}

/// Trims a mount name and refuses one that is empty or holds `/`, `:` or NUL.
pub fn sanitize_mount_name(value: &str) -> (r: Result<String, MountMateError>)
    ensures
        agrees(r, mount_name_outcome(value@)),
{
    let v = trim(value);
    if v.as_str().is_empty() || contains_char(v.as_str(), '/') || contains_char(v.as_str(), ':')
        || contains_char(v.as_str(), '\0') {
        return Err(validation_error("mountName 不能包含 /、: 或空字符。"));
    }
    Ok(v)
}

/// A sanitized mount name is its own sanitized form.
pub proof fn lemma_mount_name_normal_form(value: Seq<char>)
    requires
        mount_name_outcome(value) is Ok,
    ensures
        mount_name_outcome(mount_name_outcome(value)->Ok_0) == mount_name_outcome(value),
{
    lemma_trim_ws_idempotent(value);
}

// ---------------------------------------------------------------------------
// Import
// ---------------------------------------------------------------------------

/// The message of the first check that an import package fails, if any.
pub open spec fn import_error(c: ImportConfig) -> Option<Seq<char>> {
    if c.schema_version != 1 {
        Some("schemaVersion 目前只支持 1。"@)
    } else if required_error("displayName"@, c.display_name@) is Some {
        required_error("displayName"@, c.display_name@)
    } else if required_error("server"@, c.server@) is Some {
        required_error("server"@, c.server@)
    } else if required_error("share"@, c.share@) is Some {
        required_error("share"@, c.share@)
    } else if required_error("username"@, c.username@) is Some {
        required_error("username"@, c.username@)
    } else if drive_letter_outcome(c.default_drive_letter@) is Err {
        Some(drive_letter_outcome(c.default_drive_letter@)->Err_0)
    } else if trim_ws(c.mount_name@).len() != 0 && mount_name_outcome(c.mount_name@) is Err {
        Some(mount_name_outcome(c.mount_name@)->Err_0)
    } else {
        None
    }
}

/// The profile that a valid import package yields under the given id.
pub open spec fn is_imported_profile(p: Profile, c: ImportConfig, id: Seq<char>) -> bool {
    &&& p.id@ == id
    &&& p.display_name@ == trim_ws(c.display_name@)
    &&& p.server@ == trim_ws(c.server@)
    &&& p.share@ == trim_char(trim_ws(c.share@), '/')
    &&& p.domain@ == trim_ws(c.domain@)
    &&& p.username@ == trim_ws(c.username@)
    &&& drive_letter_outcome(c.default_drive_letter@) == Ok::<Seq<char>, Seq<char>>(p.default_drive_letter@)
    &&& p.mount_name@ == (if trim_ws(c.mount_name@).len() == 0 {
        trim_ws(c.share@)
    } else {
        trim_ws(c.mount_name@)
    })
}

/// What importing `c` under the id `id` gives: the first validation error,
/// or the profile and, apart from it, the password.
pub open spec fn import_result_matches(r: Result<(Profile, String), MountMateError>, c: ImportConfig, id: Seq<char>) -> bool {
    match import_error(c) {
        Some(m) => r matches Err(MountMateError::Validation(x)) && x@ == m,
        None => r matches Ok((p, pw)) && is_imported_profile(p, c, id) && pw@ == c.password@,
    }
}

impl ImportConfig {
    /// Validates the package and turns it into a profile with the given id,
    /// handing the password back apart from it.
    pub fn into_profile_with_id(self, id: String) -> (r: Result<(Profile, String), MountMateError>)
        ensures
            import_result_matches(r, self, id@),
    {
        self.check()?;
        let drive = normalize_drive_letter(self.default_drive_letter.as_str())?;
        let mount_name = if is_blank(self.mount_name.as_str()) {
            trim(self.share.as_str())
        } else {
            sanitize_mount_name(self.mount_name.as_str())?
        };
        let share_trimmed = trim(self.share.as_str());
        let profile = Profile {
            id,
            display_name: trim(self.display_name.as_str()),
            server: trim(self.server.as_str()),
            share: trim_matches(share_trimmed.as_str(), '/'),
            domain: trim(self.domain.as_str()),
            username: trim(self.username.as_str()),
            default_drive_letter: drive,
            mount_name,
        };
        Ok((profile, self.password))
    }

    /// Runs the checks of an import package in order and gives the first
    /// failure, if any.
    pub fn check(&self) -> (r: Result<(), MountMateError>)
        ensures
            match import_error(*self) {
                Some(m) => r matches Err(MountMateError::Validation(x)) && x@ == m,
                None => r is Ok,
            },
    {
        if self.schema_version != 1 {
            return Err(validation_error("schemaVersion 目前只支持 1。"));
        }
        validate_required("displayName", self.display_name.as_str())?;
        validate_required("server", self.server.as_str())?;
        validate_required("share", self.share.as_str())?;
        validate_required("username", self.username.as_str())?;
        normalize_drive_letter(self.default_drive_letter.as_str())?;
        if !is_blank(self.mount_name.as_str()) {
            sanitize_mount_name(self.mount_name.as_str())?;
        }
        Ok(())
    }

    /// Validates the package and, only when it is valid, turns it into a
    /// profile with a fresh random id, handing the password back apart from it.
    /// When the system's random source fails, the error says so.
    pub fn into_profile(self) -> (r: Result<(Profile, String), MountMateError>)
        ensures
            match import_error(self) {
                Some(m) => r matches Err(MountMateError::Validation(x)) && x@ == m,
                None => (r matches Err(e) && is_randomness_error(e)) || exists|id: Seq<char>|
                    is_uuid_text(id) && (r matches Ok((p, pw)) && is_imported_profile(p, self, id)
                        && pw@ == self.password@),
            },
    {
        self.check()?;
        let id = new_uuid()?;
        let ghost idv = id@;
        let r = self.into_profile_with_id(id);
        assert(is_uuid_text(idv));
        r
    }
}

/// The message given when an import package brings no password.
pub open spec fn missing_password_message() -> Seq<char> {
    "配置包缺少 password，无法完成一键挂载。"@
}

/// Turns a parsed import package into a profile and its password, refusing
/// a package whose password is blank.
pub fn import_profile(config: ImportConfig) -> (r: Result<(Profile, String), MountMateError>)
    ensures
        match import_error(config) {
            Some(m) => r matches Err(MountMateError::Validation(x)) && x@ == m,
            None => (r matches Err(e) && is_randomness_error(e)) || exists|id: Seq<char>|
                is_uuid_text(id) && import_with_id_matches(r, config, id),
        },
{
    config.check()?;
    let id = new_uuid()?;
    let ghost idv = id@;
    let r = import_profile_with_id(config, id);
    assert(is_uuid_text(idv));
    r
}

/// What importing `c` under the id `id` gives: the first validation error,
/// the refusal of a blank password, or the profile and its password.
pub open spec fn import_with_id_matches(r: Result<(Profile, String), MountMateError>, c: ImportConfig, id: Seq<char>) -> bool {
    match import_error(c) {
        Some(m) => r matches Err(MountMateError::Validation(x)) && x@ == m,
        None => if trim_ws(c.password@).len() == 0 {
            r matches Err(MountMateError::Validation(x)) && x@ == missing_password_message()
        } else {
            r matches Ok((p, pw)) && is_imported_profile(p, c, id) && pw@ == c.password@
        },
    }
}

/// Turns a parsed import package into a profile with the given id and its
/// password, refusing a package whose password is blank.
pub fn import_profile_with_id(config: ImportConfig, id: String) -> (r: Result<(Profile, String), MountMateError>)
    ensures
        import_with_id_matches(r, config, id@),
{
    let (profile, password) = config.into_profile_with_id(id)?;
    if is_blank(password.as_str()) {
        return Err(validation_error("配置包缺少 password，无法完成一键挂载。"));
    }
    Ok((profile, password))
}

/// The password of an import package never reaches the profile: two packages
/// that differ only in their passwords give the same outcome and profile.
pub proof fn lemma_password_not_in_profile(a: ImportConfig, b: ImportConfig, id: Seq<char>, p: Profile)
    requires
        a.schema_version == b.schema_version,
        a.display_name@ == b.display_name@,
        a.server@ == b.server@,
        a.share@ == b.share@,
        a.domain@ == b.domain@,
        a.username@ == b.username@,
        a.default_drive_letter@ == b.default_drive_letter@,
        a.mount_name@ == b.mount_name@,
    ensures
        import_error(a) == import_error(b),
        is_imported_profile(p, a, id) == is_imported_profile(p, b, id),
{
}

// ---------------------------------------------------------------------------
// The store
// ---------------------------------------------------------------------------

/// Two profiles are for the same account: server, share, user name and
/// domain agree up to ASCII case.
pub open spec fn same_account(a: Profile, b: Profile) -> bool {
    &&& ascii_lower(a.server@) == ascii_lower(b.server@)
    &&& ascii_lower(a.share@) == ascii_lower(b.share@)
    &&& ascii_lower(a.username@) == ascii_lower(b.username@)
    &&& ascii_lower(a.domain@) == ascii_lower(b.domain@)
}

/// `i` is the first index of `ps` whose profile is for the account of `p`.
pub open spec fn is_first_account_match(ps: Seq<Profile>, p: Profile, i: int) -> bool {
    &&& 0 <= i < ps.len()
    &&& same_account(ps[i], p)
    &&& forall|j: int| 0 <= j < i ==> !same_account(#[trigger] ps[j], p)
}

/// The first index of `ps` whose profile is for the account of `p`, if any.
pub open spec fn first_account_match(ps: Seq<Profile>, p: Profile) -> Option<int> {
    if exists|i: int| is_first_account_match(ps, p, i) {
        Some(choose|i: int| is_first_account_match(ps, p, i))
    } else {
        None
    }
}

/// `p` with the id of `existing`.
pub open spec fn with_id_of(p: Profile, existing: Profile) -> Profile {
    Profile { id: existing.id, ..p }
}

/// The profiles after saving `p`: the first profile for the same account is
/// replaced by `p`, which keeps that profile's id; with none, `p` is added.
pub open spec fn upserted(ps: Seq<Profile>, p: Profile) -> Seq<Profile> {
    match first_account_match(ps, p) {
        Some(i) => ps.update(i, with_id_of(p, ps[i])),
        None => ps.push(p),
    }
}

/// The profile as saved by `upserted`.
pub open spec fn upserted_profile(ps: Seq<Profile>, p: Profile) -> Profile {
    match first_account_match(ps, p) {
        Some(i) => with_id_of(p, ps[i]),
        None => p,
    }
}

proof fn lemma_first_match_unique(ps: Seq<Profile>, p: Profile, i: int, k: int)
    requires
        is_first_account_match(ps, p, i),
        is_first_account_match(ps, p, k),
    ensures
        i == k,
{
    if i < k {
        assert(!same_account(ps[i], p));
    } else if k < i {
        assert(!same_account(ps[k], p));
    }
}

proof fn lemma_first_match_is(ps: Seq<Profile>, p: Profile, i: int)
    requires
        is_first_account_match(ps, p, i),
    ensures
        first_account_match(ps, p) == Some(i),
{
    let k = choose|k: int| is_first_account_match(ps, p, k);
    lemma_first_match_unique(ps, p, i, k);
}

proof fn lemma_first_match_exists(ps: Seq<Profile>, p: Profile, j: int)
    requires
        0 <= j < ps.len(),
        same_account(ps[j], p),
    ensures
        exists|i: int| is_first_account_match(ps, p, i),
    decreases j,
{
    if exists|k: int| 0 <= k < j && same_account(#[trigger] ps[k], p) {
        let k = choose|k: int| 0 <= k < j && same_account(#[trigger] ps[k], p);
        lemma_first_match_exists(ps, p, k);
    } else {
        assert(is_first_account_match(ps, p, j));
    }
}

/// Saves `profile` in the store, keeping the id of a saved profile for the
/// same account, and returns the profile as saved.
pub fn upsert_profile(store: &mut ProfileStore, profile: Profile) -> (r: Profile)
    ensures
        final(store).profiles@ == upserted(old(store).profiles@, profile),
        r == upserted_profile(old(store).profiles@, profile),
{
    let n = store.profiles.len();
    let mut i: usize = 0;
    while i < n
        invariant
            i <= n == store.profiles.len(),
            store.profiles@ == old(store).profiles@,
            forall|j: int| 0 <= j < i ==> !same_account(#[trigger] store.profiles@[j], profile),
        decreases n - i,
    {
        let item = &store.profiles[i];
        if eq_ignore_ascii_case(item.server.as_str(), profile.server.as_str())
            && eq_ignore_ascii_case(item.share.as_str(), profile.share.as_str())
            && eq_ignore_ascii_case(item.username.as_str(), profile.username.as_str())
            && eq_ignore_ascii_case(item.domain.as_str(), profile.domain.as_str()) {
            proof {
                lemma_first_match_is(old(store).profiles@, profile, i as int);
            }
            let id = item.id.clone();
            let updated = Profile {
                id,
                display_name: profile.display_name,
                server: profile.server,
                share: profile.share,
                domain: profile.domain,
                username: profile.username,
                default_drive_letter: profile.default_drive_letter,
                mount_name: profile.mount_name,
            };
            let saved = updated.duplicate();
            store.profiles.set(i, updated);
            return saved;
        }
        i = i + 1;
    }
    proof {
        if exists|k: int| is_first_account_match(old(store).profiles@, profile, k) {
            let k = choose|k: int| is_first_account_match(old(store).profiles@, profile, k);
            assert(!same_account(store.profiles@[k], profile));
        }
    }
    let saved = profile.duplicate();
    store.profiles.push(profile);
    saved
}

/// Saving a profile leaves every saved profile of another account where it
/// was and as it was: a profile whose server, share, user name or domain
/// differs from the saved one's (ignoring ASCII case) is kept unchanged, and
/// the store never shrinks.
pub proof fn lemma_upsert_keeps_other_accounts(ps: Seq<Profile>, p: Profile)
    ensures
        upserted(ps, p).len() >= ps.len(),
        forall|i: int|
            0 <= i < ps.len() && (ascii_lower(ps[i].server@) != ascii_lower(p.server@)
                || ascii_lower(ps[i].share@) != ascii_lower(p.share@)
                || ascii_lower(ps[i].username@) != ascii_lower(p.username@)
                || ascii_lower(ps[i].domain@) != ascii_lower(p.domain@)) ==> #[trigger] upserted(ps, p)[i]
                == ps[i],
{
    match first_account_match(ps, p) {
        Some(k) => {
            let j = choose|j: int| is_first_account_match(ps, p, j);
            assert(is_first_account_match(ps, p, k));
        },
        None => {},
    }
}

/// Saving a profile for an account that no saved profile has (comparing
/// server, share, user name and domain, ignoring ASCII case) adds it at the
/// end with its own id, and keeps all others.
pub proof fn lemma_upsert_adds_new_account(ps: Seq<Profile>, p: Profile)
    requires
        forall|i: int|
            0 <= i < ps.len() ==> (ascii_lower(#[trigger] ps[i].server@) != ascii_lower(p.server@)
                || ascii_lower(ps[i].share@) != ascii_lower(p.share@)
                || ascii_lower(ps[i].username@) != ascii_lower(p.username@)
                || ascii_lower(ps[i].domain@) != ascii_lower(p.domain@)),
    ensures
        upserted(ps, p) == ps.push(p),
        upserted(ps, p).len() == ps.len() + 1,
        upserted_profile(ps, p) == p,
        upserted_profile(ps, p).id@ == p.id@,
{
    if exists|i: int| is_first_account_match(ps, p, i) {
        let i = choose|i: int| is_first_account_match(ps, p, i);
        assert(same_account(ps[i], p));
    }
}

/// Saving a profile for an account that is saved replaces the first such
/// profile in place, keeps its id, and leaves the number of profiles as it was.
pub proof fn lemma_upsert_replaces_saved_account(ps: Seq<Profile>, p: Profile, i: int)
    requires
        0 <= i < ps.len(),
        ascii_lower(ps[i].server@) == ascii_lower(p.server@),
        ascii_lower(ps[i].share@) == ascii_lower(p.share@),
        ascii_lower(ps[i].username@) == ascii_lower(p.username@),
        ascii_lower(ps[i].domain@) == ascii_lower(p.domain@),
    ensures
        upserted(ps, p).len() == ps.len(),
        exists|k: int|
            0 <= k <= i && upserted(ps, p)[k].id@ == ps[k].id@ && upserted(ps, p)[k].display_name@
                == p.display_name@ && upserted_profile(ps, p).id@ == ps[k].id@,
{
    lemma_first_match_exists(ps, p, i);
    let k = choose|k: int| is_first_account_match(ps, p, k);
    lemma_first_match_is(ps, p, k);
    if k > i {
        assert(!same_account(ps[i], p));
    }
}

/// No two profiles are for the same account.
pub open spec fn accounts_distinct(ps: Seq<Profile>) -> bool {
    forall|i: int, j: int| 0 <= i < j < ps.len() ==> !same_account(#[trigger] ps[i], #[trigger] ps[j])
}

/// Saving a profile keeps the profiles of a store for distinct accounts.
pub proof fn lemma_upsert_keeps_accounts_distinct(ps: Seq<Profile>, p: Profile)
    requires
        accounts_distinct(ps),
    ensures
        accounts_distinct(upserted(ps, p)),
{
    let qs = upserted(ps, p);
    match first_account_match(ps, p) {
        Some(i) => {
            let k = choose|k: int| is_first_account_match(ps, p, k);
            assert forall|a: int, b: int| 0 <= a < b < qs.len() implies !same_account(
                #[trigger] qs[a],
                #[trigger] qs[b],
            ) by {
                if a == i {
                    assert(!same_account(ps[a], ps[b]));
                } else if b == i {
                    assert(!same_account(ps[a], ps[b]));
                }
            }
        },
        None => {
            assert forall|a: int, b: int| 0 <= a < b < qs.len() implies !same_account(
                #[trigger] qs[a],
                #[trigger] qs[b],
            ) by {
                if b == ps.len() {
                    if same_account(ps[a], p) {
                        lemma_first_match_exists(ps, p, a);
                    }
                }
            }
        },
    }
}

/// Saving the same profile twice leaves the store as saving it once.
pub proof fn lemma_upsert_idempotent(ps: Seq<Profile>, p: Profile)
    ensures
        upserted(upserted(ps, p), p) == upserted(ps, p),
        upserted_profile(upserted(ps, p), p) == upserted_profile(ps, p),
{
    let qs = upserted(ps, p);
    match first_account_match(ps, p) {
        Some(i) => {
            assert(is_first_account_match(qs, p, i));
            lemma_first_match_is(qs, p, i);
            assert(qs.update(i, with_id_of(p, qs[i])) =~= qs);
        },
        None => {
            let n = ps.len() as int;
            assert forall|j: int| 0 <= j < n implies !same_account(#[trigger] qs[j], p) by {
                if same_account(ps[j], p) {
                    lemma_first_match_exists(ps, p, j);
                }
            }
            assert(is_first_account_match(qs, p, n));
            lemma_first_match_is(qs, p, n);
            assert(qs.update(n, with_id_of(p, qs[n])) =~= qs);
        },
    }
}

/// The first profile with the given id, or the error for a missing one.
pub fn profile_by_id<'a>(profiles: &'a Vec<Profile>, id: &String) -> (r: Result<&'a Profile, MountMateError>)
    ensures
        match r {
            Ok(p) => exists|i: int| 0 <= i < profiles@.len() && profiles@[i] == *p && p.id@ == id@
                && forall|j: int| 0 <= j < i ==> #[trigger] profiles@[j].id@ != id@,
            Err(e) => (e matches MountMateError::Validation(m) && m@ == "未找到该共享盘配置。"@)
                && forall|j: int| 0 <= j < profiles@.len() ==> #[trigger] profiles@[j].id@ != id@,
        },
{
    let mut i: usize = 0;
    while i < profiles.len()
        invariant
            i <= profiles.len(),
            forall|j: int| 0 <= j < i ==> #[trigger] profiles@[j].id@ != id@,
        decreases profiles.len() - i,
    {
        if profiles[i].id == *id {
            return Ok(&profiles[i]);
        }
        i = i + 1;
    }
    Err(validation_error("未找到该共享盘配置。"))
}

/// Whether an import source is the package's JSON text itself rather than
/// the path of a file: it starts with `{` once leading whitespace is dropped.
pub fn is_inline_json(source: &str) -> (r: bool)
    ensures
        r == (strip_start(source@, CharClass::Whitespace).len() > 0
            && strip_start(source@, CharClass::Whitespace)[0] == '{'),
{
    let rest = trim_start(source);
    let v = chars_of(rest.as_str());
    v.len() > 0 && v[0] == '{'
}

} // verus!
