//! The private directory that holds all previews of a user.

use crate::numeral;
use crate::path;
use vstd::prelude::*;

verus! {

/// The permission bits of a mode.
pub const PERMISSIONS: u32 = 0o777;

/// The permissions of a directory that only its owner can enter.
pub const PRIVATE: u32 = 0o700;

/// Where a user's previews are: in the runtime directory where there is one, and else under the
/// system's directory for temporary files, by a name that holds the user's id.
pub open spec fn base(runtime: Option<Seq<u8>>, temp: Seq<u8>, euid: u32) -> Seq<u8> {
    match runtime {
        Some(dir) => path::join(dir, path::bytes_of("zed-mermaid-quicklook"@)),
        None => path::join(
            temp,
            path::bytes_of("zed-mermaid-quicklook-"@ + numeral::decimal(euid as nat)),
        ),
    }
}

/// Per-user base directory for all previews. Everything below it inherits its 0700, user-only
/// access: nobody else can traverse into, read, or plant paths inside a directory only its owner
/// can enter.
///
/// Prefers `$XDG_RUNTIME_DIR` where that is a directory (on Linux that is /run/user/UID, already a
/// private 0700 tmpfs), falling back to a euid-qualified name under the system temp dir.
pub fn base_dir(runtime: Option<Vec<u8>>, runtime_is_dir: bool, temp: &[u8], euid: u32) -> (r: Vec<
    u8,
>)
    ensures
        r@ == base(
            (if runtime is Some && runtime_is_dir {
                Some((runtime->0)@)
            } else {
                None
            }),
            temp@,
            euid,
        ),
{
    match runtime {
        Some(dir) if runtime_is_dir => path::join_path(&dir, "zed-mermaid-quicklook".as_bytes()),
        _ => {
            let id = numeral::to_decimal(euid as u64);
            let name = "zed-mermaid-quicklook-".to_owned().concat(id.as_str());
            path::join_path(temp, name.as_str().as_bytes())
        },
    }
}

/// What stands at a path, as `lstat` sees it.
pub struct DirEntry {
    /// Whether it is a directory. A symbolic link is none, wherever it leads.
    pub is_dir: bool,
    /// Who owns it.
    pub uid: u32,
    /// Its mode.
    pub mode: u32,
}

/// What looking at a path gave.
pub enum DirLookup {
    Found(DirEntry),
    Missing,
    Failed,
}

/// What to do with a directory that may be used.
#[derive(PartialEq, Eq, Structural)]
pub enum DirStep {
    /// Use it as it is.
    Use,
    /// Create it, it alone, with the permissions `PRIVATE`.
    Create,
}

/// Why a directory may not be used.
pub enum DirError {
    NotADirectory { dir: Vec<u8> },
    WrongOwner { dir: Vec<u8>, owner: u32, euid: u32 },
    WrongPermissions { dir: Vec<u8>, permissions: u32 },
    Creating { dir: Vec<u8> },
    Inspecting { dir: Vec<u8> },
}

impl DirError {
    /// What the user is told.
    pub open spec fn text(self) -> Seq<char> {
        match self {
            DirError::NotADirectory { dir } => "refusing to use "@ + path::shown(dir@)
                + ": not a directory (possible symlink attack)"@,
            DirError::WrongOwner { dir, owner, euid } => "refusing to use "@ + path::shown(dir@)
                + ": owned by uid "@ + numeral::decimal(owner as nat) + ", not "@
                + numeral::decimal(euid as nat),
            DirError::WrongPermissions { dir, permissions } => "refusing to use "@ + path::shown(
                dir@,
            ) + ": permissions are "@ + numeral::octal4(permissions as nat) + ", expected 0700"@,
            DirError::Creating { dir } => "creating "@ + path::shown(dir@),
            DirError::Inspecting { dir } => "inspecting "@ + path::shown(dir@),
        }
    }

    /// What the user is told.
    pub fn message(&self) -> (r: String)
        ensures
            r@ == self.text(),
    {
        match self {
            DirError::NotADirectory { dir } => "refusing to use ".to_owned().concat(
                path::show(dir).as_str(),
            ).concat(": not a directory (possible symlink attack)"),
            DirError::WrongOwner { dir, owner, euid } => "refusing to use ".to_owned().concat(
                path::show(dir).as_str(),
            ).concat(": owned by uid ").concat(
                numeral::to_decimal(*owner as u64).as_str(),
            ).concat(", not ").concat(numeral::to_decimal(*euid as u64).as_str()),
            DirError::WrongPermissions { dir, permissions } => "refusing to use ".to_owned().concat(
                path::show(dir).as_str(),
            ).concat(": permissions are ").concat(
                numeral::to_octal4(*permissions as u64).as_str(),
            ).concat(", expected 0700"),
            DirError::Creating { dir } => "creating ".to_owned().concat(path::show(dir).as_str()),
            DirError::Inspecting { dir } => "inspecting ".to_owned().concat(
                path::show(dir).as_str(),
            ),
        }
    }
}

/// A directory that only the user `euid` can enter.
pub open spec fn private_to(entry: DirEntry, euid: u32) -> bool {
    entry.is_dir && entry.uid == euid && entry.mode & PERMISSIONS == PRIVATE
}

/// Whether `dir` is to be created as a private 0700 directory, or is an existing one that is safe
/// to reuse. A planted symlink is seen as a symlink (not its target) and rejected.
pub fn ensure_secure_dir(dir: &[u8], found: DirLookup, euid: u32) -> (r: Result<DirStep, DirError>)
    ensures
        r == Ok::<DirStep, DirError>(DirStep::Use) <==> (found matches DirLookup::Found(entry)
            && private_to(entry, euid)),
        r == Ok::<DirStep, DirError>(DirStep::Create) <==> found is Missing,
        match r {
            Ok(_) => true,
            Err(DirError::NotADirectory { dir: d }) => d@ == dir@ && (
            found matches DirLookup::Found(entry) && !entry.is_dir),
            Err(DirError::WrongOwner { dir: d, owner, euid: e }) => d@ == dir@ && e == euid && (
            found matches DirLookup::Found(entry) && entry.is_dir && entry.uid == owner && owner
                != euid),
            Err(DirError::WrongPermissions { dir: d, permissions }) => d@ == dir@ && (
            found matches DirLookup::Found(entry) && entry.is_dir && entry.uid == euid
                && permissions == entry.mode & PERMISSIONS && permissions != PRIVATE),
            Err(DirError::Inspecting { dir: d }) => d@ == dir@ && found is Failed,
            Err(DirError::Creating { dir: d }) => false,
        },
{
    match found {
        DirLookup::Found(entry) => {
            if !entry.is_dir {
                return Err(DirError::NotADirectory { dir: path::copy(dir) });
            }
            if entry.uid != euid {
                return Err(
                    DirError::WrongOwner { dir: path::copy(dir), owner: entry.uid, euid: euid },
                );
            }
            let permissions: u32 = entry.mode & PERMISSIONS;
            if permissions != PRIVATE {
                return Err(
                    DirError::WrongPermissions { dir: path::copy(dir), permissions: permissions },
                );
            }
            Ok(DirStep::Use)
        },
        DirLookup::Missing => Ok(DirStep::Create),
        DirLookup::Failed => Err(DirError::Inspecting { dir: path::copy(dir) }),
    }
}

/// What came of creating `dir`.
pub fn secure_dir_created(dir: &[u8], created: bool) -> (r: Result<(), DirError>)
    ensures
        r is Ok <==> created,
        r matches Err(e) ==> (e matches DirError::Creating { dir: d } && d@ == dir@),
{
    if created {
        Ok(())
    } else {
        Err(DirError::Creating { dir: path::copy(dir) })
    }
}

/// Without a runtime directory, two users have two base directories.
pub proof fn base_dirs_of_users_are_distinct(temp: Seq<u8>, a: u32, b: u32)
    requires
        a != b,
    ensures
        base(None, temp, a) != base(None, temp, b),
{
    let prefix = "zed-mermaid-quicklook-"@;
    let x = prefix + numeral::decimal(a as nat);
    let y = prefix + numeral::decimal(b as nat);
    lemma_first_byte(numeral::decimal(a as nat));
    lemma_first_byte(numeral::decimal(b as nat));
    if base(None, temp, a) == base(None, temp, b) {
        path::join_is_injective(temp, path::bytes_of(x), path::bytes_of(y));
        vstd::utf8::encode_utf8_decode_utf8(x);
        vstd::utf8::encode_utf8_decode_utf8(y);
        assert(numeral::decimal(a as nat) =~= x.skip(prefix.len() as int));
        assert(numeral::decimal(b as nat) =~= y.skip(prefix.len() as int));
        numeral::decimal_is_injective(a as nat, b as nat);
    }
}

proof fn lemma_first_byte(id: Seq<char>)
    ensures
        path::bytes_of("zed-mermaid-quicklook-"@ + id).len() > 0,
        path::bytes_of("zed-mermaid-quicklook-"@ + id)[0] != path::SEP,
{
    reveal_strlit("zed-mermaid-quicklook-");
    path::first_byte_of_ascii("zed-mermaid-quicklook-"@ + id);
}

/// A directory is private to a user exactly where it is a directory, the user owns it, the owner may
/// do everything in it, and nobody else may do anything.
pub proof fn private_means_the_owner_alone(entry: DirEntry, euid: u32)
    ensures
        private_to(entry, euid) <==> entry.is_dir && entry.uid == euid && entry.mode & 0o700 == 0o700
            && entry.mode & 0o077 == 0,
{
    let mode = entry.mode;
    assert(mode & 0o777 == 0o700 <==> mode & 0o700 == 0o700 && mode & 0o077 == 0) by (bit_vector);
}

/// The base directory lies directly in the runtime directory where there is one, and else directly
/// in the directory for temporary files, under a name that holds the user's id.
pub proof fn base_lies_in_runtime_or_temp(runtime: Seq<u8>, temp: Seq<u8>, euid: u32)
    ensures
        base(Some(runtime), temp, euid) == path::join(
            runtime,
            vstd::utf8::encode_utf8("zed-mermaid-quicklook"@),
        ),
        base(None, temp, euid) == path::join(
            temp,
            vstd::utf8::encode_utf8("zed-mermaid-quicklook-"@ + numeral::decimal(euid as nat)),
        ),
{
}

/// What the user is told of a directory that may not be used names it, and what is wrong with it.
pub proof fn errors_are_told_whole(error: DirError)
    ensures
        error is NotADirectory ==> error.text() == "refusing to use "@ + path::shown(
            error->NotADirectory_dir@,
        ) + ": not a directory (possible symlink attack)"@,
        error is WrongOwner ==> error.text() == "refusing to use "@ + path::shown(
            error->WrongOwner_dir@,
        ) + ": owned by uid "@ + numeral::decimal(error->owner as nat) + ", not "@
            + numeral::decimal(error->euid as nat),
        error is WrongPermissions ==> error.text() == "refusing to use "@ + path::shown(
            error->WrongPermissions_dir@,
        ) + ": permissions are "@ + numeral::octal4(error->permissions as nat)
            + ", expected 0700"@,
        error is Creating ==> error.text() == "creating "@ + path::shown(error->Creating_dir@),
        error is Inspecting ==> error.text() == "inspecting "@ + path::shown(
            error->Inspecting_dir@,
        ),
{
}

} // verus!
