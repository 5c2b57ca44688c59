//! Decisions of the flash config storage: the reserved key IDs, the mount
//! procedure (validate, or format a missing or corrupt store), skipping
//! writes of unchanged values, copying a loaded value out, and copying an
//! encoded value into a scratch buffer.
use vstd::prelude::*;
use crate::config::{ConfigError, ConfigStorageParams, FORMAT_VERSION_KEY, MAGIC_KEY};
use crate::gen::store::key_hash_spec;
use crate::hash::fnv1a_hash;
use crate::strs::{dec_digits, push_decimal};

verus! {

/// Internal buffer size for flash fetch/store operations.
pub const BUFFER_SIZE: usize = 256;

/// Type-state marker: storage has not been mounted yet.
pub struct Unmounted;

/// Type-state marker: storage has been mounted and is ready for use.
pub struct Mounted;

/// Key ID of the format magic value (the derive's `ConfigKey::Magic`).
pub fn magic_key_id() -> (r: u64)
    ensures
        r == key_hash_spec(MAGIC_KEY@),
{
    fnv1a_hash(MAGIC_KEY)
}

/// Key ID of the format version (the derive's `ConfigKey::FormatVersion`).
pub fn format_version_key_id() -> (r: u64)
    ensures
        r == key_hash_spec(FORMAT_VERSION_KEY@),
{
    fnv1a_hash(FORMAT_VERSION_KEY)
}

/// What the mount procedure learns from its last step.
pub enum MountEvent {
    /// The magic value was read.
    MagicRead(Result<Option<u32>, ConfigError>),
    /// The store was erased and the magic and version written.
    Formatted(Result<(), ConfigError>),
    /// The magic value was read again after formatting.
    MagicReread(Result<Option<u32>, ConfigError>),
    /// The format version was read; carries the magic value found.
    VersionRead(u32, Result<Option<u32>, ConfigError>),
}

/// What the mount procedure does next.
pub enum MountAction {
    /// Erase the store and write the magic and version.
    Format,
    /// Read the magic value again.
    RereadMagic,
    /// Read the format version; carries the magic value found.
    ReadVersion(u32),
    /// Mounted.
    Mounted,
    /// Mount failed.
    Fail(ConfigError),
}

/// The mount procedure: a missing magic value, or one that does not decode,
/// formats the store (then the magic must read back, else `Backend`); any
/// other read error fails without formatting; errors of the format, the
/// reread or the version read fail the mount; finally the magic must be the
/// expected one, else `Backend`.
pub open spec fn mount_step_spec(params: ConfigStorageParams, ev: MountEvent, a: MountAction) -> bool {
    match ev {
        MountEvent::MagicRead(Ok(Some(m))) => a == MountAction::ReadVersion(m),
        MountEvent::MagicRead(Ok(None)) => a is Format,
        MountEvent::MagicRead(Err(ConfigError::InvalidData)) => a is Format,
        MountEvent::MagicRead(Err(ConfigError::Utf8)) => a is Format,
        MountEvent::MagicRead(Err(e)) => a == MountAction::Fail(e),
        MountEvent::Formatted(Ok(())) => a is RereadMagic,
        MountEvent::Formatted(Err(e)) => a == MountAction::Fail(e),
        MountEvent::MagicReread(Ok(Some(m))) => a == MountAction::ReadVersion(m),
        MountEvent::MagicReread(Ok(None)) => a == MountAction::Fail(ConfigError::Backend),
        MountEvent::MagicReread(Err(e)) => a == MountAction::Fail(e),
        MountEvent::VersionRead(_, Err(e)) => a == MountAction::Fail(e),
        MountEvent::VersionRead(m, Ok(_)) => if m == params.magic {
            a is Mounted
        } else {
            a == MountAction::Fail(ConfigError::Backend)
        },
    }
}

/// The next step of mounting after `ev`; the procedure starts by reading the
/// magic value.
pub fn mount_step(params: &ConfigStorageParams, ev: MountEvent) -> (a: MountAction)
    ensures
        mount_step_spec(*params, ev, a),
{
    match ev {
        MountEvent::MagicRead(Ok(Some(m))) => MountAction::ReadVersion(m),
        MountEvent::MagicRead(Ok(None)) => MountAction::Format,
        MountEvent::MagicRead(Err(ConfigError::InvalidData)) => MountAction::Format,
        MountEvent::MagicRead(Err(ConfigError::Utf8)) => MountAction::Format,
        MountEvent::MagicRead(Err(e)) => MountAction::Fail(e),
        MountEvent::Formatted(Ok(())) => MountAction::RereadMagic,
        MountEvent::Formatted(Err(e)) => MountAction::Fail(e),
        MountEvent::MagicReread(Ok(Some(m))) => MountAction::ReadVersion(m),
        MountEvent::MagicReread(Ok(None)) => MountAction::Fail(ConfigError::Backend),
        MountEvent::MagicReread(Err(e)) => MountAction::Fail(e),
        MountEvent::VersionRead(_, Err(e)) => MountAction::Fail(e),
        MountEvent::VersionRead(m, Ok(_)) => if m == params.magic {
            MountAction::Mounted
        } else {
            MountAction::Fail(ConfigError::Backend)
        },
    }
}

/// Whether storing `bytes` writes to flash: not when the stored value is
/// already exactly `bytes`.
pub fn needs_write(existing: Option<&[u8]>, bytes: &[u8]) -> (r: bool)
    ensures
        r == !(existing matches Some(e) && e@ == bytes@),
{
    match existing {
        None => true,
        Some(e) => {
            if e.len() != bytes.len() {
                proof {
                    assert(e@.len() != bytes@.len());
                }
                return true;
            }
            let mut i: usize = 0;
            while i < e.len()
                invariant
                    existing == Some(e),
                    e@.len() == bytes@.len(),
                    i <= e@.len(),
                    forall|j: int| 0 <= j < i ==> e@[j] == bytes@[j],
                decreases e@.len() - i,
            {
                if e[i] != bytes[i] {
                    proof {
                        assert(e@[i as int] != bytes@[i as int]);
                    }
                    return true;
                }
                i = i + 1;
            }
            proof {
                assert(e@ =~= bytes@);
            }
            false
        },
    }
}

/// Copies a loaded value into `buf`, as much as fits; gives the length copied.
pub fn copy_loaded(value: &[u8], buf: &mut [u8]) -> (n: usize)
    ensures
        n == if value@.len() < old(buf)@.len() {
            value@.len()
        } else {
            old(buf)@.len()
        },
        final(buf)@.len() == old(buf)@.len(),
        final(buf)@.subrange(0, n as int) == value@.subrange(0, n as int),
        final(buf)@.subrange(n as int, final(buf)@.len() as int) == old(buf)@.subrange(
            n as int,
            old(buf)@.len() as int,
        ),
{
    let n = if value.len() < buf.len() {
        value.len()
    } else {
        buf.len()
    };
    let mut i: usize = 0;
    while i < n
        invariant
            n <= value@.len(),
            n <= buf@.len(),
            buf@.len() == old(buf)@.len(),
            i <= n,
            forall|j: int| 0 <= j < i ==> buf@[j] == value@[j],
            forall|j: int| n <= j < buf@.len() ==> buf@[j] == old(buf)@[j],
        decreases n - i,
    {
        buf[i] = value[i];
        i = i + 1;
    }
    proof {
        assert(buf@.subrange(0, n as int) =~= value@.subrange(0, n as int));
        assert(buf@.subrange(n as int, buf@.len() as int) =~= old(buf)@.subrange(n as int, old(buf)@.len() as int));
    }
    n
}


/// The text of the `BufferTooSmall` error for a value of `len` bytes.
pub open spec fn need_text(len: nat) -> Seq<char> {
    "need "@ + dec_digits(len) + " bytes"@
}

/// Copies an encoded value into the start of `buf` and gives its length; a
/// value longer than `buf` is refused with `BufferTooSmall` naming the bytes it
/// needs, and `buf` is left as it was.
pub fn put_value(bytes: &[u8], buf: &mut [u8]) -> (r: Result<usize, ConfigError>)
    ensures
        final(buf)@.len() == old(buf)@.len(),
        bytes@.len() > old(buf)@.len() ==> (r matches Err(ConfigError::BufferTooSmall(t)) && t@ == need_text(
            bytes@.len(),
        )) && final(buf)@ == old(buf)@,
        bytes@.len() <= old(buf)@.len() ==> (r matches Ok(n) && n == bytes@.len()) && final(buf)@ == bytes@ + old(
            buf,
        )@.skip(bytes@.len() as int),
{
    if bytes.len() > buf.len() {
        let mut t = "need ".to_owned();
        push_decimal(&mut t, bytes.len());
        t.append(" bytes");
        proof {
            reveal_strlit("need ");
            reveal_strlit(" bytes");
            assert(t@ =~= need_text(bytes@.len()));
        }
        return Err(ConfigError::BufferTooSmall(t));
    }
    let n = copy_loaded(bytes, buf);
    proof {
        assert(buf@ =~= buf@.subrange(0, n as int) + buf@.subrange(n as int, buf@.len() as int));
        assert(bytes@.subrange(0, n as int) =~= bytes@);
        assert(old(buf)@.subrange(n as int, old(buf)@.len() as int) =~= old(buf)@.skip(n as int));
    }
    Ok(n)
}

} // verus!
