use vstd::prelude::*;

use crate::text::{chars_of, push_char, string_of};

verus! {

/// Finds the accessor that returns the real machine id.
pub const MACHINE_ID_PATTERN: &'static str = r#"async\s+(\w+)\s*\(\)\s*\{\s*return\s+this\.[\w.]+(?:\?\?|\?)\s*this\.([\w.]+)\.machineId\s*\}"#;

/// Finds the accessor that returns the real MAC machine id.
pub const MAC_MACHINE_ID_PATTERN: &'static str = r#"async\s+(\w+)\s*\(\)\s*\{\s*return\s+this\.[\w.]+(?:\?\?|\?)\s*this\.([\w.]+)\.macMachineId\s*\}"#;

/// The body that replaces a machine id accessor: same name, inert field path.
pub const MACHINE_ID_REPLACEMENT: &'static str = "async ${1}() { return this.${2}.machineId }";

/// The body that replaces a MAC machine id accessor: same name, inert field path.
pub const MAC_MACHINE_ID_REPLACEMENT: &'static str = "async ${1}() { return this.${2}.macMachineId }";

/// Whether a regular expression compiles.
pub uninterp spec fn regex_valid(pattern: Seq<char>) -> bool;

/// The number of non-overlapping matches of a regular expression in a text.
pub uninterp spec fn regex_match_count(pattern: Seq<char>, text: Seq<char>) -> nat;

/// A text with every non-overlapping match replaced by the expanded replacement template.
pub uninterp spec fn regex_replace_all(pattern: Seq<char>, text: Seq<char>, replacement: Seq<char>) -> Seq<char>;

/// The MD5 digest of a text's UTF-8 bytes, as 32 lowercase hex digits.
pub uninterp spec fn md5_hex_of(text: Seq<char>) -> Seq<char>;

#[verifier::external_type_specification]
#[verifier::external_body]
pub struct ExRegexError(regex::Error);

/// Relies on regex::Regex::new and Regex::find_iter: the count of non-overlapping matches.
#[verifier::external_body]
fn count_matches(pattern: &str, text: &str) -> (r: Result<usize, regex::Error>)
    ensures
        (r is Ok) == regex_valid(pattern@),
        r matches Ok(n) ==> n == regex_match_count(pattern@, text@),
{
    regex::Regex::new(pattern).map(|re| re.find_iter(text).count())
}

/// Relies on regex::Regex::new and Regex::replace_all, which expands `${n}` to capture group n
/// and returns the text unchanged where nothing matches.
#[verifier::external_body]
fn replace_matches(pattern: &str, text: &str, replacement: &str) -> (r: Result<String, regex::Error>)
    ensures
        (r is Ok) == regex_valid(pattern@),
        r matches Ok(s) ==> s@ == regex_replace_all(pattern@, text@, replacement@),
        r matches Ok(s) ==> (regex_match_count(pattern@, text@) == 0 ==> s@ == text@),
{
    regex::Regex::new(pattern).map(|re| re.replace_all(text, replacement).into_owned())
}

/// Relies on md5::compute and the digest's LowerHex format.
#[verifier::external_body]
fn md5_hex(text: &str) -> (r: String)
    ensures
        r@ == md5_hex_of(text@),
{
    format!("{:x}", md5::compute(text.as_bytes()))
}

/// Relies on regex::Error's Display: a readable message.
#[verifier::external_body]
fn regex_error_message(e: &regex::Error) -> (r: String) {
    e.to_string()
}

/// Why the patch engine refused or failed.
#[derive(Debug)]
pub enum HookError {
    /// The patch target could not be found.
    MainJsNotFound(String),
    /// Neither accessor was found and the fingerprint is unknown; holds the known versions.
    Unsupported(Vec<String>),
    /// A restore was asked for but no backup exists.
    BackupMissing,
    /// A patch was asked for but an accessor is missing: the resource is already neutralized or
    /// of another shape.
    NoAccessor,
    /// Anything else, with its message.
    Other(String),
}

/// The patch engine: fingerprints, patches and restores the target's script resource.
pub struct Hook;

/// One row of the fingerprint table: a digest and the versions it identifies.
#[derive(Debug)]
pub struct FingerprintEntry {
    pub hash: String,
    pub versions: Vec<String>,
}

/// Known builds of the patch target, and the trailing line counts to strip before hashing.
#[derive(Debug)]
pub struct FingerprintTable {
    pub trims: Vec<usize>,
    pub entries: Vec<FingerprintEntry>,
}

/// The state of the patch target and its backup, as the engine sees them.
#[derive(Debug)]
pub struct PatchFiles {
    pub main_js: String,
    pub backup: Option<String>,
}

/// What the fingerprint and the accessor search say about a resource.
#[derive(Clone, Copy, Debug, PartialEq, Eq, Structural)]
pub enum PatchStatus {
    /// Both accessors are present: the resource can be patched.
    Unpatched,
    /// An accessor is missing: already neutralized.
    Patched,
    /// No accessor and no known fingerprint.
    Unsupported,
}

pub struct PatchFilesView {
    pub main_js: Seq<char>,
    pub backup: Option<Seq<char>>,
}

impl View for PatchFiles {
    type V = PatchFilesView;

    open spec fn view(&self) -> PatchFilesView {
        PatchFilesView {
            main_js: self.main_js@,
            backup: match self.backup {
                Some(b) => Some(b@),
                None => None,
            },
        }
    }
}

/// The position of the last newline in `s`, or -1.
pub open spec fn last_newline(s: Seq<char>) -> int
    decreases s.len(),
{
    if s.len() == 0 {
        -1
    } else if s.last() == '\n' {
        s.len() - 1
    } else {
        last_newline(s.drop_last())
    }
}

/// `s` without its last line: everything before the last newline, or nothing.
pub open spec fn drop_last_line(s: Seq<char>) -> Seq<char> {
    let i = last_newline(s);
    if i < 0 {
        Seq::empty()
    } else {
        s.subrange(0, i)
    }
}

/// `s` without its last `n` lines.
pub open spec fn strip_last_lines(s: Seq<char>, n: nat) -> Seq<char>
    decreases n,
{
    if n == 0 {
        s
    } else {
        drop_last_line(strip_last_lines(s, (n - 1) as nat))
    }
}

/// The first entry whose digest is `h`.
pub open spec fn entry_index(entries: Seq<FingerprintEntry>, h: Seq<char>) -> Option<int>
    decreases entries.len(),
{
    if entries.len() == 0 {
        None
    } else {
        match entry_index(entries.drop_last(), h) {
            Some(i) => Some(i),
            None => if entries.last().hash@ == h {
                Some(entries.len() - 1)
            } else {
                None
            },
        }
    }
}

/// The entry found with the first trim count, in the table's order, that yields a known digest.
pub open spec fn first_known(entries: Seq<FingerprintEntry>, trims: Seq<usize>, content: Seq<char>) -> Option<int>
    decreases trims.len(),
{
    if trims.len() == 0 {
        None
    } else {
        match first_known(entries, trims.drop_last(), content) {
            Some(i) => Some(i),
            None => entry_index(entries, md5_hex_of(strip_last_lines(content, trims.last() as nat))),
        }
    }
}

/// All version labels of the table, entry by entry.
pub open spec fn all_versions(entries: Seq<FingerprintEntry>) -> Seq<Seq<char>>
    decreases entries.len(),
{
    if entries.len() == 0 {
        Seq::empty()
    } else {
        all_versions(entries.drop_last()) + entries.last().versions@.map_values(|s: String| s@)
    }
}

pub open spec fn status_of(machine_id_hits: nat, mac_machine_id_hits: nat, recognized: bool) -> PatchStatus {
    if machine_id_hits > 0 && mac_machine_id_hits > 0 {
        PatchStatus::Unpatched
    } else if machine_id_hits == 0 && mac_machine_id_hits == 0 && !recognized {
        PatchStatus::Unsupported
    } else {
        PatchStatus::Patched
    }
}

/// The accessor counts of a resource.
pub open spec fn machine_id_hits(content: Seq<char>) -> nat {
    regex_match_count(MACHINE_ID_PATTERN@, content)
}

pub open spec fn mac_machine_id_hits(content: Seq<char>) -> nat {
    regex_match_count(MAC_MACHINE_ID_PATTERN@, content)
}

/// The status of a resource against a fingerprint table.
pub open spec fn resource_status(table: FingerprintTable, content: Seq<char>) -> PatchStatus {
    status_of(
        machine_id_hits(content),
        mac_machine_id_hits(content),
        first_known(table.entries@, table.trims@, content) is Some,
    )
}

/// The resource with both accessors rewritten.
pub open spec fn rewritten(content: Seq<char>) -> Seq<char> {
    let once = regex_replace_all(MACHINE_ID_PATTERN@, content, MACHINE_ID_REPLACEMENT@);
    regex_replace_all(MAC_MACHINE_ID_PATTERN@, once, MAC_MACHINE_ID_REPLACEMENT@)
}

/// The backup after a patch attempt: an existing one stays, else the current content is kept.
pub open spec fn backup_after_patch(files: PatchFilesView) -> Option<Seq<char>> {
    match files.backup {
        Some(b) => Some(b),
        None => Some(files.main_js),
    }
}

/// The state after a restore, or None when there is no backup to restore from.
pub open spec fn restore_result(files: PatchFilesView) -> Option<PatchFilesView> {
    match files.backup {
        Some(b) => Some(PatchFilesView { main_js: b, backup: None }),
        None => None,
    }
}

/// The number of newlines in `s`.
pub open spec fn newline_count(s: Seq<char>) -> nat
    decreases s.len(),
{
    if s.len() == 0 {
        0
    } else {
        newline_count(s.drop_last()) + if s.last() == '\n' {
            1nat
        } else {
            0nat
        }
    }
}

/// `content` is `base` followed by `n` more lines: for `n > 0`, a newline and then text that
/// holds exactly `n - 1` newlines, whatever else it holds.
pub open spec fn has_trailer(content: Seq<char>, base: Seq<char>, n: nat) -> bool {
    if n == 0 {
        content == base
    } else {
        exists|t: Seq<char>| #[trigger] newline_count(t) == n - 1 && content == base + seq!['\n'] + t
    }
}

/// Both patterns compile.
pub open spec fn patterns_valid() -> bool {
    regex_valid(MACHINE_ID_PATTERN@) && regex_valid(MAC_MACHINE_ID_PATTERN@)
}

/// The version labels, each after a space.
pub open spec fn versions_text(vs: Seq<String>) -> Seq<char>
    decreases vs.len(),
{
    if vs.len() == 0 {
        Seq::empty()
    } else {
        versions_text(vs.drop_last()) + seq![' '] + vs.last()@
    }
}

/// The position just past the kept part once the last line of `v[..end]` is dropped.
fn drop_last_line_end(v: &Vec<char>, end: usize) -> (r: usize)
    requires
        end <= v.len(),
    ensures
        r <= end,
        v@.subrange(0, r as int) == drop_last_line(v@.subrange(0, end as int)),
{
    let mut j = end;
    while j > 0 && v[j - 1] != '\n'
        invariant
            j <= end <= v.len(),
            last_newline(v@.subrange(0, end as int)) == last_newline(v@.subrange(0, j as int)),
        decreases j,
    {
        assert(v@.subrange(0, j as int).drop_last() =~= v@.subrange(0, j - 1));
        j = j - 1;
    }
    if j == 0 {
        assert(v@.subrange(0, 0) =~= Seq::<char>::empty());
        0
    } else {
        assert(v@.subrange(0, end as int).subrange(0, j - 1) =~= v@.subrange(0, j - 1));
        j - 1
    }
}

/// The length of what is left of `v` without its last `n` lines.
fn strip_end(v: &Vec<char>, n: usize) -> (r: usize)
    ensures
        r <= v.len(),
        v@.subrange(0, r as int) == strip_last_lines(v@, n as nat),
{
    let mut end = v.len();
    let mut k: usize = 0;
    assert(v@.subrange(0, end as int) =~= v@);
    while k < n
        invariant
            k <= n,
            end <= v.len(),
            v@.subrange(0, end as int) == strip_last_lines(v@, k as nat),
        decreases n - k,
    {
        end = drop_last_line_end(v, end);
        k = k + 1;
    }
    end
}

impl FingerprintTable {
    /// The built-in table: the trim counts known so far, and no digests.
    pub fn builtin() -> (r: FingerprintTable)
        ensures
            r.trims@ == seq![0usize, 1usize, 2usize],
            r.entries@.len() == 0,
    {
        FingerprintTable { trims: vec![0, 1, 2], entries: Vec::new() }
    }

    /// Adds a digest and the versions it identifies.
    pub fn add_entry(&mut self, hash: String, versions: Vec<String>)
        ensures
            final(self).trims == old(self).trims,
            final(self).entries@ == old(self).entries@.push(FingerprintEntry { hash, versions }),
    {
        self.entries.push(FingerprintEntry { hash, versions });
    }

    /// This table extended with fetched entries, which are looked up first.
    pub fn merged_with(self, remote: Vec<FingerprintEntry>) -> (r: FingerprintTable)
        ensures
            r.trims@ == self.trims@,
            r.entries@ == remote@ + self.entries@,
    {
        let FingerprintTable { trims, entries: mut local } = self;
        let mut entries = remote;
        entries.append(&mut local);
        FingerprintTable { trims, entries }
    }

    /// The index of the first entry whose digest is `digest`.
    pub fn lookup(&self, digest: &String) -> (r: Option<usize>)
        ensures
            r matches Some(i) ==> entry_index(self.entries@, digest@) == Some(i as int),
            r is None ==> entry_index(self.entries@, digest@) is None,
    {
        let mut i: usize = 0;
        while i < self.entries.len()
            invariant
                i <= self.entries.len(),
                entry_index(self.entries@.take(i as int), digest@) is None,
            decreases self.entries.len() - i,
        {
            assert(self.entries@.take(i + 1).drop_last() =~= self.entries@.take(i as int));
            if self.entries[i].hash == *digest {
                proof {
                    lemma_entry_index_prefix(self.entries@, digest@, i as int + 1);
                }
                return Some(i);
            }
            i = i + 1;
        }
        assert(self.entries@.take(i as int) =~= self.entries@);
        None
    }

    /// Every version label in the table, entry by entry.
    pub fn known_versions(&self) -> (r: Vec<String>)
        ensures
            r@.map_values(|s: String| s@) == all_versions(self.entries@),
    {
        let mut r: Vec<String> = Vec::new();
        let mut i: usize = 0;
        while i < self.entries.len()
            invariant
                i <= self.entries.len(),
                r@.map_values(|s: String| s@) == all_versions(self.entries@.take(i as int)),
            decreases self.entries.len() - i,
        {
            let versions = &self.entries[i].versions;
            let ghost before = r@.map_values(|s: String| s@);
            let mut j: usize = 0;
            while j < versions.len()
                invariant
                    j <= versions.len(),
                    r@.map_values(|s: String| s@) == before + versions@.take(j as int).map_values(|s: String| s@),
                decreases versions.len() - j,
            {
                let ghost prev = r@;
                r.push(versions[j].clone());
                j = j + 1;
                assert(versions@.take(j as int) =~= versions@.take(j - 1).push(versions@[j - 1]));
                assert(versions@.take(j as int).map_values(|s: String| s@) =~= versions@.take(j - 1).map_values(
                    |s: String| s@,
                ).push(versions@[j - 1]@));
                assert(r@.map_values(|s: String| s@) =~= prev.map_values(|s: String| s@).push(versions@[j - 1]@));
            }
            assert(versions@.take(versions.len() as int) =~= versions@);
            assert(self.entries@.take(i + 1).drop_last() =~= self.entries@.take(i as int));
            i = i + 1;
        }
        assert(self.entries@.take(i as int) =~= self.entries@);
        r
    }
}

/// Looking up in a prefix that holds a match finds it in the whole.
proof fn lemma_entry_index_prefix(entries: Seq<FingerprintEntry>, h: Seq<char>, k: int)
    requires
        0 < k <= entries.len(),
        entry_index(entries.take(k - 1), h) is None,
        entries[k - 1].hash@ == h,
    ensures
        entry_index(entries, h) == Some(k - 1),
    decreases entries.len() - k,
{
    assert(entries.take(k).drop_last() =~= entries.take(k - 1));
    if k < entries.len() {
        assert(entries.take(k + 1).drop_last() =~= entries.take(k));
        lemma_entry_index_extend(entries, h, k);
        lemma_entry_index_prefix_found(entries, h, k, k - 1);
    } else {
        assert(entries.take(k) =~= entries);
    }
}

proof fn lemma_entry_index_extend(entries: Seq<FingerprintEntry>, h: Seq<char>, k: int)
    requires
        0 < k < entries.len(),
        entry_index(entries.take(k - 1), h) is None,
        entries[k - 1].hash@ == h,
    ensures
        entry_index(entries.take(k), h) == Some(k - 1),
{
    assert(entries.take(k).drop_last() =~= entries.take(k - 1));
}

/// A match found in a prefix stays the first match in every longer prefix.
proof fn lemma_entry_index_prefix_found(entries: Seq<FingerprintEntry>, h: Seq<char>, k: int, i: int)
    requires
        0 < k <= entries.len(),
        entry_index(entries.take(k), h) == Some(i),
    ensures
        entry_index(entries, h) == Some(i),
    decreases entries.len() - k,
{
    if k < entries.len() {
        assert(entries.take(k + 1).drop_last() =~= entries.take(k));
        lemma_entry_index_prefix_found(entries, h, k + 1, i);
    } else {
        assert(entries.take(k) =~= entries);
    }
}

impl HookError {
    /// The message shown to the user; a missing target starts with `MAIN_JS_NOT_FOUND:`.
    pub fn message(&self) -> (r: String)
        ensures
            self matches HookError::MainJsNotFound(m) ==> r@ == "MAIN_JS_NOT_FOUND:"@ + m@,
            self matches HookError::Other(m) ==> r@ == m@,
            self matches HookError::Unsupported(v) ==> r@ == "unsupported target version; known versions:"@
                + versions_text(v@),
            self is BackupMissing ==> r@ == "backup file does not exist"@,
            self is NoAccessor ==> r@ == "cannot find the machineId and macMachineId accessors"@,
    {
        match self {
            HookError::MainJsNotFound(m) => {
                let mut s = String::from_str("MAIN_JS_NOT_FOUND:");
                s.append(m.as_str());
                s
            },
            HookError::Unsupported(versions) => {
                let mut s = String::from_str("unsupported target version; known versions:");
                let ghost head = s@;
                let mut i: usize = 0;
                while i < versions.len()
                    invariant
                        i <= versions.len(),
                        s@ == head + versions_text(versions@.take(i as int)),
                    decreases versions.len() - i,
                {
                    push_char(&mut s, ' ');
                    s.append(versions[i].as_str());
                    i = i + 1;
                    assert(versions@.take(i as int).drop_last() =~= versions@.take(i - 1));
                    assert(head + versions_text(versions@.take(i as int)) =~= head + versions_text(
                        versions@.take(i - 1),
                    ) + seq![' '] + versions@[i - 1]@);
                }
                assert(versions@.take(i as int) =~= versions@);
                s
            },
            HookError::BackupMissing => String::from_str("backup file does not exist"),
            HookError::NoAccessor => String::from_str("cannot find the machineId and macMachineId accessors"),
            HookError::Other(m) => m.clone(),
        }
    }
}

impl Hook {
    /// The entry of the table that the resource's fingerprint matches, trying each trim count
    /// in order.
    pub fn fingerprint(content: &str, table: &FingerprintTable) -> (r: Option<usize>)
        ensures
            r matches Some(i) ==> first_known(table.entries@, table.trims@, content@) == Some(i as int),
            r is None ==> first_known(table.entries@, table.trims@, content@) is None,
    {
        let v = chars_of(content);
        let mut t: usize = 0;
        while t < table.trims.len()
            invariant
                t <= table.trims.len(),
                v@ == content@,
                first_known(table.entries@, table.trims@.take(t as int), content@) is None,
            decreases table.trims.len() - t,
        {
            let end = strip_end(&v, table.trims[t]);
            let kept = string_of(&crate::text::slice_chars(&v, 0, end));
            let digest = md5_hex(kept.as_str());
            assert(table.trims@.take(t + 1).drop_last() =~= table.trims@.take(t as int));
            let found = table.lookup(&digest);
            if let Some(i) = found {
                proof {
                    lemma_first_known_prefix_found(table.entries@, table.trims@, content@, t as int + 1, i as int);
                }
                return Some(i);
            }
            t = t + 1;
        }
        assert(table.trims@.take(t as int) =~= table.trims@);
        None
    }

    /// Patched or not, from the accessor counts and whether the fingerprint is known: both
    /// accessors present is unpatched; neither present with an unknown fingerprint is
    /// unsupported; anything else is patched.
    pub fn classify(machine_id_hits: usize, mac_machine_id_hits: usize, recognized: bool) -> (r: PatchStatus)
        ensures
            r == status_of(machine_id_hits as nat, mac_machine_id_hits as nat, recognized),
    {
        if machine_id_hits > 0 && mac_machine_id_hits > 0 {
            PatchStatus::Unpatched
        } else if machine_id_hits == 0 && mac_machine_id_hits == 0 && !recognized {
            PatchStatus::Unsupported
        } else {
            PatchStatus::Patched
        }
    }

    /// The status of a resource against the fingerprint table.
    pub fn status(content: &str, table: &FingerprintTable) -> (r: Result<PatchStatus, HookError>)
        ensures
            patterns_valid() ==> r is Ok,
            r matches Ok(s) ==> s == resource_status(*table, content@),
            r matches Err(e) ==> e is Other,
    {
        let mid = match count_matches(MACHINE_ID_PATTERN, content) {
            Ok(n) => n,
            Err(e) => return Err(HookError::Other(regex_error_message(&e))),
        };
        let mac = match count_matches(MAC_MACHINE_ID_PATTERN, content) {
            Ok(n) => n,
            Err(e) => return Err(HookError::Other(regex_error_message(&e))),
        };
        let known = Self::fingerprint(content, table);
        Ok(Self::classify(mid, mac, known.is_some()))
    }

    /// Whether the resource is already neutralized: one of the two accessors is missing.
    pub fn is_hook(content: &str) -> (r: Result<bool, HookError>)
        ensures
            patterns_valid() ==> r is Ok,
            r matches Ok(b) ==> b == (machine_id_hits(content@) == 0 || mac_machine_id_hits(content@) == 0),
            r matches Err(e) ==> e is Other,
    {
        let mid = match count_matches(MACHINE_ID_PATTERN, content) {
            Ok(n) => n,
            Err(e) => return Err(HookError::Other(regex_error_message(&e))),
        };
        let mac = match count_matches(MAC_MACHINE_ID_PATTERN, content) {
            Ok(n) => n,
            Err(e) => return Err(HookError::Other(regex_error_message(&e))),
        };
        Ok(mid == 0 || mac == 0)
    }

    /// Patches the resource: keeps a backup of the unpatched content (an existing backup is
    /// never overwritten), then, when both accessors are present, rewrites them to inert field
    /// paths. Fails with the known versions when neither accessor is found and the fingerprint is
    /// unknown, and fails without writing when one accessor is missing.
    pub fn update_main_js_content(files: &mut PatchFiles, table: &FingerprintTable) -> (r: Result<(), HookError>)
        ensures
            final(files)@.backup == backup_after_patch(old(files)@),
            r is Ok ==> resource_status(*table, old(files)@.main_js) == PatchStatus::Unpatched
                && final(files)@.main_js == rewritten(old(files)@.main_js),
            r is Err ==> final(files)@.main_js == old(files)@.main_js,
            r matches Err(HookError::Unsupported(v)) ==> resource_status(*table, old(files)@.main_js)
                == PatchStatus::Unsupported && v@.map_values(|s: String| s@) == all_versions(table.entries@),
            r matches Err(HookError::NoAccessor) ==> resource_status(*table, old(files)@.main_js)
                == PatchStatus::Patched,
            r matches Err(e) ==> (e is Unsupported || e is NoAccessor || e is Other),
            patterns_valid() ==> (resource_status(*table, old(files)@.main_js) == PatchStatus::Unpatched
                ==> r is Ok),
            patterns_valid() ==> (resource_status(*table, old(files)@.main_js) == PatchStatus::Unsupported
                ==> r matches Err(HookError::Unsupported(_))),
            patterns_valid() ==> (resource_status(*table, old(files)@.main_js) == PatchStatus::Patched
                ==> r matches Err(HookError::NoAccessor)),
    {
        if files.backup.is_none() {
            files.backup = Some(files.main_js.clone());
        }
        let status = match Self::status(files.main_js.as_str(), table) {
            Ok(s) => s,
            Err(e) => return Err(e),
        };
        if status == PatchStatus::Unsupported {
            return Err(HookError::Unsupported(table.known_versions()));
        }
        if status == PatchStatus::Patched {
            return Err(HookError::NoAccessor);
        }
        let once = match replace_matches(MACHINE_ID_PATTERN, files.main_js.as_str(), MACHINE_ID_REPLACEMENT) {
            Ok(s) => s,
            Err(e) => return Err(HookError::Other(regex_error_message(&e))),
        };
        let twice = match replace_matches(MAC_MACHINE_ID_PATTERN, once.as_str(), MAC_MACHINE_ID_REPLACEMENT) {
            Ok(s) => s,
            Err(e) => return Err(HookError::Other(regex_error_message(&e))),
        };
        files.main_js = twice;
        Ok(())
    }

    /// Restores the resource from its backup and removes the backup; fails when there is none.
    pub fn restore_from_backup(files: &mut PatchFiles) -> (r: Result<(), HookError>)
        ensures
            restore_result(old(files)@) matches Some(f) ==> r is Ok && final(files)@ == f,
            restore_result(old(files)@) is None ==> (r matches Err(HookError::BackupMissing))
                && final(files)@ == old(files)@,
    {
        match files.backup.take() {
            Some(b) => {
                files.main_js = b;
                Ok(())
            },
            None => Err(HookError::BackupMissing),
        }
    }
}

/// Patching twice in a row leaves the backup that one patch leaves: the second patch finds a
/// backup and keeps it, whatever the first wrote to the resource.
pub proof fn lemma_backup_idempotent(before: PatchFilesView, between: PatchFilesView)
    requires
        between.backup == backup_after_patch(before),
    ensures
        backup_after_patch(between) == backup_after_patch(before),
{
}

/// A patch of a resource without a backup, followed by a restore, gives back the content from
/// before the patch and leaves no backup, whatever the patch wrote.
pub proof fn lemma_restore_exact(before: PatchFilesView, patched: PatchFilesView)
    requires
        before.backup is None,
        patched.backup == backup_after_patch(before),
    ensures
        restore_result(patched) == Some(PatchFilesView { main_js: before.main_js, backup: None }),
{
}

/// When a known digest is reached by one of the table's trim counts, the fingerprint check
/// recognizes the resource.
pub proof fn lemma_known_trim_recognized(table: FingerprintTable, content: Seq<char>, k: int)
    requires
        0 <= k < table.trims@.len(),
        entry_index(table.entries@, md5_hex_of(strip_last_lines(content, table.trims@[k] as nat))) is Some,
    ensures
        first_known(table.entries@, table.trims@, content) is Some,
{
    lemma_first_known_at(table.entries@, table.trims@, content, k);
}

proof fn lemma_first_known_at(entries: Seq<FingerprintEntry>, trims: Seq<usize>, content: Seq<char>, k: int)
    requires
        0 <= k < trims.len(),
        entry_index(entries, md5_hex_of(strip_last_lines(content, trims[k] as nat))) is Some,
    ensures
        first_known(entries, trims, content) is Some,
    decreases trims.len(),
{
    if k < trims.len() - 1 {
        assert(trims.drop_last()[k] == trims[k]);
        lemma_first_known_at(entries, trims.drop_last(), content, k);
    }
}

/// With no trim count reaching a known digest, the fingerprint check finds nothing.
proof fn lemma_first_known_none(entries: Seq<FingerprintEntry>, trims: Seq<usize>, content: Seq<char>)
    requires
        forall|k: int|
            0 <= k < trims.len() ==> (#[trigger] entry_index(
                entries,
                md5_hex_of(strip_last_lines(content, trims[k] as nat)),
            )) is None,
    ensures
        first_known(entries, trims, content) is None,
    decreases trims.len(),
{
    if trims.len() > 0 {
        assert forall|k: int| 0 <= k < trims.drop_last().len() implies (#[trigger] entry_index(
            entries,
            md5_hex_of(strip_last_lines(content, trims.drop_last()[k] as nat)),
        )) is None by {
            assert(trims.drop_last()[k] == trims[k]);
        }
        lemma_first_known_none(entries, trims.drop_last(), content);
        assert(trims.last() == trims[trims.len() - 1]);
    }
}

/// A resource in which neither accessor is found and no trim count reaches a known digest is
/// unsupported.
pub proof fn lemma_unknown_is_unsupported(table: FingerprintTable, content: Seq<char>)
    requires
        machine_id_hits(content) == 0,
        mac_machine_id_hits(content) == 0,
        forall|k: int|
            0 <= k < table.trims@.len() ==> (#[trigger] entry_index(
                table.entries@,
                md5_hex_of(strip_last_lines(content, table.trims@[k] as nat)),
            )) is None,
    ensures
        resource_status(table, content) == PatchStatus::Unsupported,
{
    lemma_first_known_none(table.entries@, table.trims@, content);
}

/// Dropping `n` lines is dropping one, then `n - 1`.
proof fn lemma_strip_first(s: Seq<char>, n: nat)
    requires
        n > 0,
    ensures
        strip_last_lines(s, n) == strip_last_lines(drop_last_line(s), (n - 1) as nat),
    decreases n,
{
    if n > 1 {
        lemma_strip_first(s, (n - 1) as nat);
        assert(strip_last_lines(s, n) == drop_last_line(strip_last_lines(s, (n - 1) as nat)));
        assert(strip_last_lines(drop_last_line(s), (n - 1) as nat) == drop_last_line(
            strip_last_lines(drop_last_line(s), (n - 2) as nat),
        ));
    } else {
        assert(strip_last_lines(s, 1) == drop_last_line(strip_last_lines(s, 0)));
    }
}

/// Text without a newline has no last newline; appending it keeps the last newline before it.
proof fn lemma_last_newline_append(a: Seq<char>, b: Seq<char>)
    requires
        newline_count(b) == 0,
    ensures
        last_newline(a + b) == last_newline(a),
    decreases b.len(),
{
    if b.len() > 0 {
        assert((a + b).drop_last() =~= a + b.drop_last());
        lemma_last_newline_append(a, b.drop_last());
    } else {
        assert(a + b =~= a);
    }
}

/// Text with newlines splits at its last one into text with one newline fewer, the newline,
/// and text without any.
proof fn lemma_split_last_newline(t: Seq<char>)
    requires
        newline_count(t) > 0,
    ensures
        0 <= last_newline(t) < t.len(),
        t[last_newline(t)] == '\n',
        newline_count(t.subrange(0, last_newline(t))) == newline_count(t) - 1,
        newline_count(t.subrange(last_newline(t) + 1, t.len() as int)) == 0,
    decreases t.len(),
{
    if t.last() == '\n' {
        assert(t.subrange(0, t.len() - 1) =~= t.drop_last());
        assert(t.subrange(t.len() as int, t.len() as int) =~= Seq::<char>::empty());
    } else {
        lemma_split_last_newline(t.drop_last());
        let j = last_newline(t.drop_last());
        assert(t.subrange(0, j) =~= t.drop_last().subrange(0, j));
        let tail = t.subrange(j + 1, t.len() as int);
        assert(tail.drop_last() =~= t.drop_last().subrange(j + 1, t.drop_last().len() as int));
    }
}

/// Stripping `n` lines from `base`, a newline, and text with `n - 1` newlines gives `base`.
proof fn lemma_strip_trailer(base: Seq<char>, t: Seq<char>, n: nat)
    requires
        n > 0,
        newline_count(t) == n - 1,
    ensures
        strip_last_lines(base + seq!['\n'] + t, n) == base,
    decreases n,
{
    let c = base + seq!['\n'] + t;
    lemma_strip_first(c, n);
    if n == 1 {
        lemma_last_newline_append(base + seq!['\n'], t);
        assert(c =~= (base + seq!['\n']) + t);
        assert((base + seq!['\n']).drop_last() =~= base);
        assert(c.subrange(0, base.len() as int) =~= base);
    } else {
        lemma_split_last_newline(t);
        let j = last_newline(t);
        let t1 = t.subrange(0, j);
        let t2 = t.subrange(j + 1, t.len() as int);
        let front = base + seq!['\n'] + t1 + seq!['\n'];
        assert(c =~= front + t2);
        lemma_last_newline_append(front, t2);
        assert(front.drop_last() =~= base + seq!['\n'] + t1);
        assert(c.subrange(0, last_newline(c)) =~= base + seq!['\n'] + t1);
        lemma_strip_trailer(base, t1, (n - 1) as nat);
    }
}

/// Whatever the last `n` lines of a resource hold, the fingerprint check recognizes it when `n`
/// is one of the table's trim counts and the digest of the rest is known.
pub proof fn lemma_trailer_ignored(table: FingerprintTable, base: Seq<char>, content: Seq<char>, k: int)
    requires
        0 <= k < table.trims@.len(),
        has_trailer(content, base, table.trims@[k] as nat),
        entry_index(table.entries@, md5_hex_of(base)) is Some,
    ensures
        first_known(table.entries@, table.trims@, content) is Some,
{
    let n = table.trims@[k] as nat;
    if n > 0 {
        let t = choose|t: Seq<char>| #[trigger] newline_count(t) == n - 1 && content == base + seq!['\n'] + t;
        lemma_strip_trailer(base, t, n);
    }
    lemma_known_trim_recognized(table, content, k);
}

/// A match found with a prefix of the trim counts is the first match for all of them.
proof fn lemma_first_known_prefix_found(
    entries: Seq<FingerprintEntry>,
    trims: Seq<usize>,
    content: Seq<char>,
    k: int,
    i: int,
)
    requires
        0 < k <= trims.len(),
        first_known(entries, trims.take(k - 1), content) is None,
        entry_index(entries, md5_hex_of(strip_last_lines(content, trims[k - 1] as nat))) == Some(i),
    ensures
        first_known(entries, trims, content) == Some(i),
    decreases trims.len() - k,
{
    assert(trims.take(k).drop_last() =~= trims.take(k - 1));
    assert(first_known(entries, trims.take(k), content) == Some(i));
    lemma_first_known_grow(entries, trims, content, k, i);
}

proof fn lemma_first_known_grow(entries: Seq<FingerprintEntry>, trims: Seq<usize>, content: Seq<char>, k: int, i: int)
    requires
        0 < k <= trims.len(),
        first_known(entries, trims.take(k), content) == Some(i),
    ensures
        first_known(entries, trims, content) == Some(i),
    decreases trims.len() - k,
{
    if k < trims.len() {
        assert(trims.take(k + 1).drop_last() =~= trims.take(k));
        lemma_first_known_grow(entries, trims, content, k + 1, i);
    } else {
        assert(trims.take(k) =~= trims);
    }
}

} // verus!
