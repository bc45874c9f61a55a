//! The private runtime directory layout, and the identifiers that may name
//! entries in it.

use vstd::prelude::*;
use vstd::string::*;

use crate::error::{CoreError, CoreResult};
use crate::paths::{
    first_component_is, has_no_component, has_parent_component, join, join_path, scan_components,
};

verus! {

/// The largest credential file the runtime reads.
pub const MAX_CREDENTIAL_BYTES: u64 = 16777216;

/// An identifier byte: a lowercase ASCII letter, an ASCII digit, `-` or `_`.
pub open spec fn is_id_byte(b: u8) -> bool {
    (97u8 <= b && b <= 122u8) || (48u8 <= b && b <= 57u8) || b == 45u8 || b == 95u8
}

/// A resource identifier: 1 to 96 identifier bytes.
pub open spec fn is_valid_id(bytes: Seq<u8>) -> bool {
    0 < bytes.len() <= 96 && forall|i: int| 0 <= i < bytes.len() ==> is_id_byte(#[trigger] bytes[i])
}

/// Accepts a resource identifier, or refuses it with `INVALID_REQUEST`.
pub fn validate_id(value: &str) -> (r: CoreResult<()>)
    ensures
        r is Ok <==> is_valid_id(value.spec_bytes()),
        r matches Err(e) ==> e.code@ == "INVALID_REQUEST"@,
{
    let bytes = value.as_bytes();
    let n = bytes.len();
    let mut ok = n > 0 && n <= 96;
    let mut i: usize = 0;
    while i < n
        invariant
            bytes@ == value.spec_bytes(),
            n == bytes@.len(),
            i <= n,
            ok == (0 < n <= 96 && forall|j: int| 0 <= j < i ==> is_id_byte(#[trigger] bytes@[j])),
        decreases n - i,
    {
        let b = bytes[i];
        let good = (97u8 <= b && b <= 122u8) || (48u8 <= b && b <= 57u8) || b == 45u8 || b == 95u8;
        proof {
            if ok && good {
                assert forall|j: int| 0 <= j < i + 1 implies is_id_byte(#[trigger] bytes@[j]) by {
                    if j < i {
                    } else {
                        assert(bytes@[j] == b);
                    }
                }
            }
            if !good {
                assert(!is_id_byte(bytes@[i as int]));
            }
        }
        ok = ok && good;
        i = i + 1;
    }
    if ok {
        Ok(())
    } else {
        Err(CoreError::new("INVALID_REQUEST", "resource identifier is invalid"))
    }
}

/// A runtime root the layout accepts: absolute, not `/`, not under `/mnt`,
/// and free of `..` components.
pub open spec fn is_allowed_root(root: Seq<char>) -> bool {
    &&& root.len() > 0
    &&& root[0] == '/'
    &&& !has_no_component(root)
    &&& !first_component_is(root, "mnt"@)
    &&& !has_parent_component(root)
}

/// Accepts a runtime root, or refuses it with `PATH_REJECTED`.
pub fn check_root(root: &str) -> (r: CoreResult<()>)
    ensures
        r is Ok <==> is_allowed_root(root@),
        r matches Err(e) ==> e.code@ == "PATH_REJECTED"@,
{
    let scan = scan_components(root);
    let absolute = root.unicode_len() > 0 && root.get_char(0) == '/';
    if !absolute || !scan.any_component || scan.first_is_mnt || scan.any_parent {
        return Err(CoreError::new("PATH_REJECTED", "runtime root is not allowed"));
    }
    Ok(())
}

/// The private runtime tree, rooted at an allowed absolute path.
#[derive(Debug, Clone)]
pub struct Layout {
    root: String,
}

impl View for Layout {
    type V = Seq<char>;

    closed spec fn view(&self) -> Seq<char> {
        self.root@
    }
}

impl Layout {
    /// Every layout's root is allowed.
    pub closed spec fn wf(&self) -> bool {
        is_allowed_root(self.root@)
    }

    /// Checks the root and builds the layout over it. The directories of
    /// `private_directories` are then created, private, by the host.
    pub fn initialize(root: &str) -> (r: CoreResult<Layout>)
        ensures
            r is Ok <==> is_allowed_root(root@),
            r matches Ok(l) ==> l@ == root@ && l.wf(),
            r matches Err(e) ==> e.code@ == "PATH_REJECTED"@,
    {
        check_root(root)?;
        Ok(Layout { root: String::from_str(root) })
    }

    pub proof fn lemma_wf(&self)
        requires
            self.wf(),
        ensures
            is_allowed_root(self@),
    {
    }

    pub fn root(&self) -> (r: &str)
        ensures
            r@ == self@,
    {
        self.root.as_str()
    }

    pub fn database(&self) -> (r: String)
        ensures
            r@ == join(self@, "muxlane.db"@),
    {
        join_path(self.root.as_str(), "muxlane.db")
    }

    pub fn accounts(&self) -> (r: String)
        ensures
            r@ == join(self@, "accounts"@),
    {
        join_path(self.root.as_str(), "accounts")
    }

    pub fn projects(&self) -> (r: String)
        ensures
            r@ == join(self@, "projects"@),
    {
        join_path(self.root.as_str(), "projects")
    }

    pub fn locks(&self) -> (r: String)
        ensures
            r@ == join(self@, "locks"@),
    {
        join_path(self.root.as_str(), "locks")
    }

    pub fn transactions(&self) -> (r: String)
        ensures
            r@ == join(self@, "transactions"@),
    {
        join_path(self.root.as_str(), "transactions")
    }

    pub fn recovery(&self) -> (r: String)
        ensures
            r@ == join(self@, "recovery"@),
    {
        join_path(self.root.as_str(), "recovery")
    }

    pub fn logs(&self) -> (r: String)
        ensures
            r@ == join(self@, "logs"@),
    {
        join_path(self.root.as_str(), "logs")
    }

    pub fn diagnostics(&self) -> (r: String)
        ensures
            r@ == join(self@, "diagnostics"@),
    {
        join_path(self.root.as_str(), "diagnostics")
    }

    pub fn run(&self) -> (r: String)
        ensures
            r@ == join(self@, "run"@),
    {
        join_path(self.root.as_str(), "run")
    }

    pub fn socket(&self) -> (r: String)
        ensures
            r@ == join(join(self@, "run"@), "muxlaned.sock"@),
    {
        join_path(self.run().as_str(), "muxlaned.sock")
    }

    pub fn daemon_lock(&self) -> (r: String)
        ensures
            r@ == join(join(self@, "run"@), "daemon.lock"@),
    {
        join_path(self.run().as_str(), "daemon.lock")
    }

    pub fn account_dir(&self, account_id: &str) -> (r: CoreResult<String>)
        ensures
            r is Ok <==> is_valid_id(account_id.spec_bytes()),
            r matches Ok(p) ==> p@ == join(join(self@, "accounts"@), account_id@),
            r matches Err(e) ==> e.code@ == "INVALID_REQUEST"@,
    {
        validate_id(account_id)?;
        Ok(join_path(self.accounts().as_str(), account_id))
    }

    pub fn vault_auth(&self, account_id: &str) -> (r: CoreResult<String>)
        ensures
            r is Ok <==> is_valid_id(account_id.spec_bytes()),
            r matches Ok(p) ==> p@ == join(join(join(self@, "accounts"@), account_id@), "auth.json"@),
            r matches Err(e) ==> e.code@ == "INVALID_REQUEST"@,
    {
        let directory = self.account_dir(account_id)?;
        Ok(join_path(directory.as_str(), "auth.json"))
    }

    pub fn query_home(&self, account_id: &str) -> (r: CoreResult<String>)
        ensures
            r is Ok <==> is_valid_id(account_id.spec_bytes()),
            r matches Ok(p) ==> p@ == join(join(join(self@, "accounts"@), account_id@), "query-home"@),
            r matches Err(e) ==> e.code@ == "INVALID_REQUEST"@,
    {
        let directory = self.account_dir(account_id)?;
        Ok(join_path(directory.as_str(), "query-home"))
    }

    pub fn project_dir(&self, project_id: &str) -> (r: CoreResult<String>)
        ensures
            r is Ok <==> is_valid_id(project_id.spec_bytes()),
            r matches Ok(p) ==> p@ == join(join(self@, "projects"@), project_id@),
            r matches Err(e) ==> e.code@ == "INVALID_REQUEST"@,
    {
        validate_id(project_id)?;
        Ok(join_path(self.projects().as_str(), project_id))
    }

    pub fn codex_home(&self, project_id: &str) -> (r: CoreResult<String>)
        ensures
            r is Ok <==> is_valid_id(project_id.spec_bytes()),
            r matches Ok(p) ==> p@ == join(join(join(self@, "projects"@), project_id@), "codex-home"@),
            r matches Err(e) ==> e.code@ == "INVALID_REQUEST"@,
    {
        let directory = self.project_dir(project_id)?;
        Ok(join_path(directory.as_str(), "codex-home"))
    }

    pub fn account_lock(&self, account_id: &str) -> (r: CoreResult<String>)
        ensures
            r is Ok <==> is_valid_id(account_id.spec_bytes()),
            r matches Ok(p) ==> p@ == join(
                join(join(self@, "locks"@), "accounts"@),
                account_id@ + ".lock"@,
            ),
            r matches Err(e) ==> e.code@ == "INVALID_REQUEST"@,
    {
        validate_id(account_id)?;
        let directory = join_path(self.locks().as_str(), "accounts");
        let mut name = String::from_str(account_id);
        name.append(".lock");
        Ok(join_path(directory.as_str(), name.as_str()))
    }

    pub fn project_lock(&self, project_id: &str) -> (r: CoreResult<String>)
        ensures
            r is Ok <==> is_valid_id(project_id.spec_bytes()),
            r matches Ok(p) ==> p@ == join(
                join(join(self@, "locks"@), "projects"@),
                project_id@ + ".lock"@,
            ),
            r matches Err(e) ==> e.code@ == "INVALID_REQUEST"@,
    {
        validate_id(project_id)?;
        let directory = join_path(self.locks().as_str(), "projects");
        let mut name = String::from_str(project_id);
        name.append(".lock");
        Ok(join_path(directory.as_str(), name.as_str()))
    }

    /// The private directories of the runtime tree, parents first.
    pub fn private_directories(&self) -> (r: Vec<String>)
        ensures
            r@.len() == 10,
            r@[0]@ == self@,
            r@[1]@ == join(self@, "accounts"@),
            r@[2]@ == join(self@, "projects"@),
            r@[3]@ == join(join(self@, "locks"@), "accounts"@),
            r@[4]@ == join(join(self@, "locks"@), "projects"@),
            r@[5]@ == join(self@, "transactions"@),
            r@[6]@ == join(self@, "recovery"@),
            r@[7]@ == join(self@, "logs"@),
            r@[8]@ == join(self@, "diagnostics"@),
            r@[9]@ == join(self@, "run"@),
    {
        let mut r = Vec::new();
        r.push(String::from_str(self.root.as_str()));
        r.push(self.accounts());
        r.push(self.projects());
        r.push(join_path(self.locks().as_str(), "accounts"));
        r.push(join_path(self.locks().as_str(), "projects"));
        r.push(self.transactions());
        r.push(self.recovery());
        r.push(self.logs());
        r.push(self.diagnostics());
        r.push(self.run());
        r
    }

    /// The private directories of one account: its directory and Query Home.
    pub fn account_directories(&self, account_id: &str) -> (r: CoreResult<Vec<String>>)
        ensures
            r is Ok <==> is_valid_id(account_id.spec_bytes()),
            r matches Ok(v) ==> v@.len() == 2 && v@[0]@ == join(join(self@, "accounts"@), account_id@)
                && v@[1]@ == join(v@[0]@, "query-home"@),
            r matches Err(e) ==> e.code@ == "INVALID_REQUEST"@,
    {
        let directory = self.account_dir(account_id)?;
        let home = join_path(directory.as_str(), "query-home");
        let mut r = Vec::new();
        r.push(directory);
        r.push(home);
        Ok(r)
    }

    /// The private directories of one project: its directory, Codex home and logs.
    pub fn project_directories(&self, project_id: &str) -> (r: CoreResult<Vec<String>>)
        ensures
            r is Ok <==> is_valid_id(project_id.spec_bytes()),
            r matches Ok(v) ==> v@.len() == 3 && v@[0]@ == join(join(self@, "projects"@), project_id@)
                && v@[1]@ == join(v@[0]@, "codex-home"@) && v@[2]@ == join(v@[0]@, "logs"@),
            r matches Err(e) ==> e.code@ == "INVALID_REQUEST"@,
    {
        let directory = self.project_dir(project_id)?;
        let home = join_path(directory.as_str(), "codex-home");
        let logs = join_path(directory.as_str(), "logs");
        let mut r = Vec::new();
        r.push(directory);
        r.push(home);
        r.push(logs);
        Ok(r)
    }
}

/// The runtime root the environment names: `MUXLANE_DATA_DIR` itself, else
/// `muxlane` under `XDG_DATA_HOME`, else `.local/share/muxlane` under `HOME`.
pub open spec fn chosen_root(
    data_dir: Option<Seq<char>>,
    xdg_data_home: Option<Seq<char>>,
    home: Option<Seq<char>>,
) -> Option<Seq<char>> {
    match data_dir {
        Some(d) => Some(d),
        None => match xdg_data_home {
            Some(x) => Some(join(x, "muxlane"@)),
            None => match home {
                Some(h) => Some(join(h, ".local/share/muxlane"@)),
                None => None,
            },
        },
    }
}

/// The text of an environment value that is set.
pub open spec fn env_text(o: Option<&str>) -> Option<Seq<char>> {
    match o {
        Some(s) => Some(s@),
        None => None,
    }
}

impl Layout {
    /// The runtime root named by the environment's values, checked as
    /// `initialize` checks it.
    pub fn discover_root(data_dir: Option<&str>, xdg_data_home: Option<&str>, home: Option<&str>) -> (r:
        CoreResult<String>)
        ensures
            r matches Ok(root) ==> Some(root@) == chosen_root(
                env_text(data_dir),
                env_text(xdg_data_home),
                env_text(home),
            ) && is_allowed_root(root@),
            r is Ok <==> (chosen_root(
                env_text(data_dir),
                env_text(xdg_data_home),
                env_text(home),
            ) matches Some(root) && is_allowed_root(root)),
            r matches Err(e) ==> e.code@ == "PATH_REJECTED"@,
    {
        let root = match data_dir {
            Some(d) => String::from_str(d),
            None => match xdg_data_home {
                Some(x) => join_path(x, "muxlane"),
                None => match home {
                    Some(h) => join_path(h, ".local/share/muxlane"),
                    None => {
                        return Err(CoreError::new("PATH_REJECTED", "HOME is unavailable"));
                    },
                },
            },
        };
        check_root(root.as_str())?;
        Ok(root)
    }

    /// The layout over the root the environment names.
    pub fn discover(data_dir: Option<&str>, xdg_data_home: Option<&str>, home: Option<&str>) -> (r:
        CoreResult<Layout>)
        ensures
            r matches Ok(l) ==> l.wf() && Some(l@) == chosen_root(
                env_text(data_dir),
                env_text(xdg_data_home),
                env_text(home),
            ),
            r matches Err(e) ==> e.code@ == "PATH_REJECTED"@,
    {
        let root = Layout::discover_root(data_dir, xdg_data_home, home)?;
        Layout::initialize(root.as_str())
    }
}

/// A controlled directory must be a directory owned by the current user with
/// mode `0700`.
pub fn check_private_dir(is_dir: bool, owner: u32, current_user: u32, mode: u32) -> (r: CoreResult<
    (),
>)
    ensures
        r is Ok <==> is_dir && owner == current_user && mode & 0o777u32 == 0o700u32,
        r matches Err(e) ==> e.code@ == "PERMISSION_DENIED"@,
{
    if !is_dir || owner != current_user || mode & 0o777u32 != 0o700u32 {
        return Err(
            CoreError::new("PERMISSION_DENIED", "controlled directory ownership or mode is unsafe"),
        );
    }
    Ok(())
}

/// A controlled credential file must be a regular file owned by the current
/// user with mode `0600`, of at most `MAX_CREDENTIAL_BYTES`.
pub fn check_credential_file(is_file: bool, owner: u32, current_user: u32, mode: u32, length: u64)
    -> (r: CoreResult<()>)
    ensures
        r is Ok <==> is_file && owner == current_user && mode & 0o777u32 == 0o600u32 && length
            <= MAX_CREDENTIAL_BYTES,
        r matches Err(e) ==> e.code@ == "PERMISSION_DENIED"@,
{
    if !is_file || owner != current_user || mode & 0o777u32 != 0o600u32 || length
        > MAX_CREDENTIAL_BYTES {
        return Err(CoreError::new("PERMISSION_DENIED", "credential file metadata is unsafe"));
    }
    Ok(())
}

/// A credential import source must be a regular file owned by the current
/// user, of at most `MAX_CREDENTIAL_BYTES`.
pub fn check_credential_source(is_file: bool, owner: u32, current_user: u32, length: u64) -> (r:
    CoreResult<()>)
    ensures
        r is Ok <==> is_file && owner == current_user && length <= MAX_CREDENTIAL_BYTES,
        r matches Err(e) ==> e.code@ == "PATH_REJECTED"@,
{
    if !is_file || owner != current_user || length > MAX_CREDENTIAL_BYTES {
        return Err(CoreError::new("PATH_REJECTED", "credential source metadata is unsafe"));
    }
    Ok(())
}

/// A private write never follows a symbolic link, and replaces an existing
/// file only when asked to.
pub fn check_write_target(exists: bool, is_symlink: bool, is_file: bool, overwrite: bool) -> (r:
    CoreResult<()>)
    ensures
        r is Ok <==> !(exists && (is_symlink || (!overwrite && is_file))),
        r matches Err(e) ==> e.code@ == "CONFLICT"@,
{
    if exists && (is_symlink || (!overwrite && is_file)) {
        return Err(CoreError::new("CONFLICT", "controlled target already exists or is unsafe"));
    }
    Ok(())
}

// ---------------------------------------------------------------------------
// Separate files for separate identifiers.

/// `base` as `join` continues it: with a separator unless it is empty or
/// already ends in one.
pub open spec fn join_prefix(base: Seq<char>) -> Seq<char> {
    if base.len() == 0 || base.last() == '/' {
        base
    } else {
        base + "/"@
    }
}

/// The text of an identifier is not empty and holds no `/`.
proof fn lemma_id_text(id: &str)
    requires
        is_valid_id(id.spec_bytes()),
    ensures
        id@.len() > 0,
        forall|i: int| 0 <= i < id@.len() ==> id@[i] != '/',
{
    vstd::utf8::encode_utf8_decode_utf8(id@);
    crate::text::lemma_text_chars(id, id.spec_bytes());
    vstd::utf8::decode_utf8_encode_utf8(id.spec_bytes());
    let bytes = vstd::utf8::encode_utf8(id@);
    assert(bytes == id.spec_bytes());
    if id@.len() == 0 {
        assert(bytes.len() == 0);
    }
    lemma_id_chars(id@);
}

proof fn lemma_id_chars(s: Seq<char>)
    requires
        forall|i: int|
            0 <= i < vstd::utf8::encode_utf8(s).len() ==> is_id_byte(
                #[trigger] vstd::utf8::encode_utf8(s)[i],
            ),
    ensures
        forall|i: int| 0 <= i < s.len() ==> s[i] != '/',
    decreases s.len(),
{
    if s.len() > 0 {
        let first = vstd::utf8::encode_scalar(s[0] as u32);
        let rest = vstd::utf8::encode_utf8(s.drop_first());
        let all = vstd::utf8::encode_utf8(s);
        assert(all == first + rest);
        assert(first.len() >= 1);
        if s[0] == '/' {
            assert((s[0] as u32) == 47u32);
            assert((47u32 & 0x7Fu32) as u8 == 47u8) by (bit_vector);
            assert(all[0] == first[0]);
            assert(!is_id_byte(all[0]));
        }
        assert forall|i: int| 0 <= i < rest.len() implies is_id_byte(#[trigger] rest[i]) by {
            assert(rest[i] == all[first.len() + i]);
        }
        lemma_id_chars(s.drop_first());
        assert forall|i: int| 0 <= i < s.len() implies s[i] != '/' by {
            if i > 0 {
                assert(s[i] == s.drop_first()[i - 1]);
            }
        }
    }
}

/// Joining a part that does not begin with `/` continues the base.
proof fn lemma_join_continues(base: Seq<char>, part: Seq<char>)
    requires
        part.len() > 0,
        part[0] != '/',
    ensures
        join(base, part) == join_prefix(base) + part,
{
}

/// Equal texts that share their beginning and their end share the middle.
proof fn lemma_same_middle(p: Seq<char>, a: Seq<char>, b: Seq<char>, s: Seq<char>)
    requires
        p + a + s == p + b + s,
    ensures
        a == b,
{
    let x = p + a + s;
    assert((p + a + s).len() == p.len() + a.len() + s.len());
    assert((p + b + s).len() == p.len() + b.len() + s.len());
    assert(a.len() == b.len());
    assert(a =~= x.subrange(p.len() as int, (p.len() + a.len()) as int));
    assert(b =~= (p + b + s).subrange(p.len() as int, (p.len() + b.len()) as int));
}

/// An identifier's file named `name` under `base`: the base continued by
/// the identifier, a `/` and the name.
proof fn lemma_id_file(base: Seq<char>, id: &str, name: Seq<char>)
    requires
        is_valid_id(id.spec_bytes()),
        name.len() > 0,
        name[0] != '/',
    ensures
        join(join(base, id@), name) == join_prefix(base) + id@ + ("/"@ + name),
{
    reveal_strlit("/");
    lemma_id_text(id);
    lemma_join_continues(base, id@);
    let x = join_prefix(base) + id@;
    assert(x.last() == id@.last());
    assert(id@[id@.len() - 1] != '/');
    assert(x + "/"@ + name =~= join_prefix(base) + id@ + ("/"@ + name));
}

/// Two different accounts never share a Vault file.
pub proof fn lemma_vault_files_are_distinct(layout: Layout, a: &str, b: &str)
    requires
        is_valid_id(a.spec_bytes()),
        is_valid_id(b.spec_bytes()),
        a@ != b@,
    ensures
        join(join(join(layout@, "accounts"@), a@), "auth.json"@) != join(
            join(join(layout@, "accounts"@), b@),
            "auth.json"@,
        ),
{
    reveal_strlit("auth.json");
    let base = join(layout@, "accounts"@);
    lemma_id_file(base, a, "auth.json"@);
    lemma_id_file(base, b, "auth.json"@);
    if join(join(base, a@), "auth.json"@) == join(join(base, b@), "auth.json"@) {
        lemma_same_middle(join_prefix(base), a@, b@, "/"@ + "auth.json"@);
    }
}

/// An identifier's lock file under `base`: the base continued by the
/// identifier and `.lock`.
proof fn lemma_lock_file(base: Seq<char>, id: &str)
    requires
        is_valid_id(id.spec_bytes()),
    ensures
        join(base, id@ + ".lock"@) == join_prefix(base) + id@ + ".lock"@,
{
    lemma_id_text(id);
    assert((id@ + ".lock"@)[0] == id@[0]);
    lemma_join_continues(base, id@ + ".lock"@);
    assert(join_prefix(base) + (id@ + ".lock"@) =~= join_prefix(base) + id@ + ".lock"@);
}

/// Two different accounts never share a lock file, nor do two different
/// projects; and no account's lock file is a project's.
pub proof fn lemma_lock_files_are_distinct(layout: Layout, a: &str, b: &str, p: &str, q: &str)
    requires
        is_valid_id(a.spec_bytes()),
        is_valid_id(b.spec_bytes()),
        is_valid_id(p.spec_bytes()),
        is_valid_id(q.spec_bytes()),
    ensures
        a@ != b@ ==> join(join(join(layout@, "locks"@), "accounts"@), a@ + ".lock"@) != join(
            join(join(layout@, "locks"@), "accounts"@),
            b@ + ".lock"@,
        ),
        p@ != q@ ==> join(join(join(layout@, "locks"@), "projects"@), p@ + ".lock"@) != join(
            join(join(layout@, "locks"@), "projects"@),
            q@ + ".lock"@,
        ),
        join(join(join(layout@, "locks"@), "accounts"@), a@ + ".lock"@) != join(
            join(join(layout@, "locks"@), "projects"@),
            p@ + ".lock"@,
        ),
{
    reveal_strlit("locks");
    reveal_strlit("accounts");
    reveal_strlit("projects");
    reveal_strlit("/");
    let locks = join(layout@, "locks"@);
    let accounts = join(locks, "accounts"@);
    let projects = join(locks, "projects"@);
    lemma_lock_file(accounts, a);
    lemma_lock_file(accounts, b);
    lemma_lock_file(projects, p);
    lemma_lock_file(projects, q);
    if a@ != b@ && join(accounts, a@ + ".lock"@) == join(accounts, b@ + ".lock"@) {
        lemma_same_middle(join_prefix(accounts), a@, b@, ".lock"@);
    }
    if p@ != q@ && join(projects, p@ + ".lock"@) == join(projects, q@ + ".lock"@) {
        lemma_same_middle(join_prefix(projects), p@, q@, ".lock"@);
    }
    lemma_join_continues(layout@, "locks"@);
    let r = join_prefix(layout@) + "locks"@;
    assert(locks == r);
    assert(r.len() > 0 && r.last() == 's');
    lemma_join_continues(locks, "accounts"@);
    lemma_join_continues(locks, "projects"@);
    assert(join_prefix(locks) == locks + "/"@);
    let k: int = (locks.len() + 1) as int;
    assert(accounts == locks + "/"@ + "accounts"@);
    assert(projects == locks + "/"@ + "projects"@);
    assert(accounts.last() == 's' && projects.last() == 's');
    let x = join_prefix(accounts) + a@ + ".lock"@;
    let y = join_prefix(projects) + p@ + ".lock"@;
    assert(x[k] == 'a');
    assert(y[k] == 'p');
}

} // verus!
