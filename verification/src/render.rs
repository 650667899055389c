//! Text for humans: hex digests, decimal sizes, octal permission masks,
//! wall-clock timestamps, whole records, and the per-field description of a
//! reported change.
use vstd::prelude::*;
use vstd::string::StringExecFns;
use crate::types::{FileMetadataExt, RecordV, SymlinkMetadataV, FileMetadataV, DirMetadataV};
use crate::fileops::{field_changes_spec, field_changes_of, same_variant};

verus! {

/// The sixteen digit characters, lowercase.
pub open spec fn digit_char(d: int) -> char {
    seq!['0', '1', '2', '3', '4', '5', '6', '7', '8', '9', 'a', 'b', 'c', 'd', 'e', 'f'][d]
}

/// One digit as text.
fn digit_str(d: u8) -> (s: &'static str)
    requires
        d < 16,
    ensures
        s@ =~= seq![digit_char(d as int)],
{
    proof {
        reveal_strlit("0");
        reveal_strlit("1");
        reveal_strlit("2");
        reveal_strlit("3");
        reveal_strlit("4");
        reveal_strlit("5");
        reveal_strlit("6");
        reveal_strlit("7");
        reveal_strlit("8");
        reveal_strlit("9");
        reveal_strlit("a");
        reveal_strlit("b");
        reveal_strlit("c");
        reveal_strlit("d");
        reveal_strlit("e");
        reveal_strlit("f");
    }
    if d == 0 {
        "0"
    } else if d == 1 {
        "1"
    } else if d == 2 {
        "2"
    } else if d == 3 {
        "3"
    } else if d == 4 {
        "4"
    } else if d == 5 {
        "5"
    } else if d == 6 {
        "6"
    } else if d == 7 {
        "7"
    } else if d == 8 {
        "8"
    } else if d == 9 {
        "9"
    } else if d == 10 {
        "a"
    } else if d == 11 {
        "b"
    } else if d == 12 {
        "c"
    } else if d == 13 {
        "d"
    } else if d == 14 {
        "e"
    } else {
        "f"
    }
}

/// A number in decimal, most significant digit first.
pub open spec fn dec_str(n: nat) -> Seq<char>
    decreases n,
{
    if n < 10 {
        seq![digit_char(n as int)]
    } else {
        dec_str(n / 10) + seq![digit_char((n % 10) as int)]
    }
}

/// A number in octal, most significant digit first.
pub open spec fn oct_str(n: nat) -> Seq<char>
    decreases n,
{
    if n < 8 {
        seq![digit_char(n as int)]
    } else {
        oct_str(n / 8) + seq![digit_char((n % 8) as int)]
    }
}

/// A size or timestamp in decimal.
pub fn dec_u64(n: u64) -> (r: String)
    ensures
        r@ =~= dec_str(n as nat),
    decreases n,
{
    if n < 10 {
        String::from_str(digit_str(n as u8))
    } else {
        let mut s = dec_u64(n / 10);
        s.append(digit_str((n % 10) as u8));
        s
    }
}

/// A permission mask in octal.
pub fn oct_u32(n: u32) -> (r: String)
    ensures
        r@ =~= oct_str(n as nat),
    decreases n,
{
    if n < 8 {
        String::from_str(digit_str(n as u8))
    } else {
        let mut s = oct_u32(n / 8);
        s.append(digit_str((n % 8) as u8));
        s
    }
}

/// Bytes as lowercase hex, two digits each.
pub open spec fn hex_str(bytes: Seq<u8>) -> Seq<char>
    decreases bytes.len(),
{
    if bytes.len() == 0 {
        Seq::empty()
    } else {
        hex_str(bytes.drop_last()) + seq![
            digit_char(bytes.last() as int / 16),
            digit_char(bytes.last() as int % 16),
        ]
    }
}

impl crate::types::Hash {
    /// The digest as 64 lowercase hex characters.
    pub fn to_hex(&self) -> (r: String)
        ensures
            r@ =~= hex_str(self@),
    {
        let mut r = String::new();
        let mut i: usize = 0;
        while i < 32
            invariant
                i <= 32,
                self@.len() == 32,
                r@ =~= hex_str(self@.take(i as int)),
            decreases 32 - i,
        {
            let b = self.hash[i];
            r.append(digit_str(b / 16));
            r.append(digit_str(b % 16));
            proof {
                assert(self@.take(i + 1).drop_last() =~= self@.take(i as int));
                assert(self@.take(i + 1).last() == self@[i as int]);
            }
            i += 1;
        }
        proof {
            assert(self@.take(32) =~= self@);
        }
        r
    }
}

/// What chrono renders a timestamp as, and whether the timestamp lies in its
/// range at all; a function of the seconds alone.
pub uninterp spec fn time_text(secs: i64) -> Option<Seq<char>>;

/// Relies on chrono's DateTime::<Utc>::from_timestamp and the Display of the
/// resulting UTC datetime: the rendering depends on the seconds alone, and
/// `None` comes exactly on an out-of-range number of seconds.
#[verifier::external_body]
fn format_timestamp(secs: i64) -> (r: Option<String>)
    ensures
        match r {
            Some(s) => time_text(secs) == Some(s@),
            None => time_text(secs) is None,
        },
{
    chrono::DateTime::<chrono::Utc>::from_timestamp(secs, 0).map(|t| t.to_string())
}

/// A record's modification time as text; a marker where chrono cannot place
/// the timestamp.
pub open spec fn time_display(modified: u64) -> Seq<char> {
    match time_text(modified as i64) {
        Some(s) => s,
        None => "#ERROR#"@,
    }
}

/// The modification time as text.
pub fn render_time(modified: u64) -> (r: String)
    ensures
        r@ == time_display(modified),
{
    match format_timestamp(modified as i64) {
        Some(s) => s,
        None => String::from_str("#ERROR#"),
    }
}

/// The attribute triple as text, as every variant shows it.
pub open spec fn attrs_text(permissions: u32, size: u64, modified: u64) -> Seq<char> {
    " perm: "@ + oct_str(permissions as nat) + " size: "@ + dec_str(size as nat)
        + " modified: "@ + time_display(modified)
}

fn render_attrs(permissions: u32, size: u64, modified: u64) -> (r: String)
    ensures
        r@ =~= attrs_text(permissions, size, modified),
{
    let mut r = String::from_str(" perm: ");
    r.append(oct_u32(permissions).as_str());
    r.append(" size: ");
    r.append(dec_u64(size).as_str());
    r.append(" modified: ");
    r.append(render_time(modified).as_str());
    r
}

/// A symlink record as text: its target, then the attributes.
pub open spec fn symlink_text(s: SymlinkMetadataV) -> Seq<char> {
    "-> "@ + s.data + attrs_text(s.permissions, s.size, s.modified)
}

/// A file record as text: its digest in hex, then the attributes.
pub open spec fn file_text(f: FileMetadataV) -> Seq<char> {
    "hash: "@ + hex_str(f.hash) + attrs_text(f.permissions, f.size, f.modified)
}

/// A directory record as text: the attributes.
pub open spec fn dir_text(d: DirMetadataV) -> Seq<char> {
    attrs_text(d.permissions, d.size, d.modified)
}

/// A whole record as text, named by its variant.
pub open spec fn record_text(v: RecordV) -> Seq<char> {
    match v {
        RecordV::Symlink(s) => "Symlink "@ + symlink_text(s),
        RecordV::File(f) => "File "@ + file_text(f),
        RecordV::Dir(d) => "Directory "@ + dir_text(d),
    }
}

/// One record as text.
pub fn render_record(rec: &FileMetadataExt) -> (r: String)
    ensures
        r@ =~= record_text(rec@),
{
    match rec {
        FileMetadataExt::Symlink(s) => {
            let mut r = String::from_str("Symlink ");
            r.append("-> ");
            r.append(s.data.as_str());
            r.append(render_attrs(s.permissions, s.size, s.modified).as_str());
            r
        },
        FileMetadataExt::File(f) => {
            let mut r = String::from_str("File ");
            r.append("hash: ");
            r.append(f.hash.to_hex().as_str());
            r.append(render_attrs(f.permissions, f.size, f.modified).as_str());
            r
        },
        FileMetadataExt::Dir(d) => {
            let mut r = String::from_str("Directory ");
            r.append(render_attrs(d.permissions, d.size, d.modified).as_str());
            r
        },
    }
}

/// The leading fragment of a change description: what the variant's own field
/// — a file's digest, a symlink's target — became; empty when it kept.
pub open spec fn own_field_text(before: RecordV, after: RecordV) -> Seq<char>
    recommends
        same_variant(before, after),
{
    match (before, after) {
        (RecordV::File(x), RecordV::File(y)) => if x.hash != y.hash {
            " hash changed "@ + hex_str(x.hash) + " -> "@ + hex_str(y.hash)
        } else {
            Seq::empty()
        },
        (RecordV::Symlink(x), RecordV::Symlink(y)) => if x.data != y.data {
            " changed "@ + x.data + " -> "@ + y.data
        } else {
            Seq::empty()
        },
        _ => Seq::empty(),
    }
}

/// The shared trailing fragments of a change description: the modification
/// time, the permissions and the size, each only where it differs.
pub open spec fn shared_fields_text(before: RecordV, after: RecordV) -> Seq<char>
    recommends
        same_variant(before, after),
{
    let f = field_changes_spec(before, after);
    (if f.modified {
        " modified time changed "@ + time_display(modified_of(before)) + " -> "@ + time_display(
            modified_of(after),
        )
    } else {
        Seq::empty()
    }) + (if f.permissions {
        " permissions changed "@ + oct_str(permissions_of(before) as nat) + " -> "@ + oct_str(
            permissions_of(after) as nat,
        )
    } else {
        Seq::empty()
    }) + (if f.size {
        " size changed "@ + dec_str(size_of(before) as nat) + " -> "@ + dec_str(size_of(after) as nat)
    } else {
        Seq::empty()
    })
}

/// The description `check` gives a reported same-variant change.
pub open spec fn change_text(before: RecordV, after: RecordV) -> Seq<char>
    recommends
        same_variant(before, after),
{
    own_field_text(before, after) + shared_fields_text(before, after)
}

/// The attribute triple's modification time.
pub open spec fn modified_of(v: RecordV) -> u64 {
    match v {
        RecordV::Symlink(s) => s.modified,
        RecordV::File(f) => f.modified,
        RecordV::Dir(d) => d.modified,
    }
}

/// The attribute triple's permission mask.
pub open spec fn permissions_of(v: RecordV) -> u32 {
    match v {
        RecordV::Symlink(s) => s.permissions,
        RecordV::File(f) => f.permissions,
        RecordV::Dir(d) => d.permissions,
    }
}

/// The attribute triple's size.
pub open spec fn size_of(v: RecordV) -> u64 {
    match v {
        RecordV::Symlink(s) => s.size,
        RecordV::File(f) => f.size,
        RecordV::Dir(d) => d.size,
    }
}

fn modified_field(rec: &FileMetadataExt) -> (r: u64)
    ensures
        r == modified_of(rec@),
{
    match rec {
        FileMetadataExt::Symlink(s) => s.modified,
        FileMetadataExt::File(f) => f.modified,
        FileMetadataExt::Dir(d) => d.modified,
    }
}

fn permissions_field(rec: &FileMetadataExt) -> (r: u32)
    ensures
        r == permissions_of(rec@),
{
    match rec {
        FileMetadataExt::Symlink(s) => s.permissions,
        FileMetadataExt::File(f) => f.permissions,
        FileMetadataExt::Dir(d) => d.permissions,
    }
}

fn size_field(rec: &FileMetadataExt) -> (r: u64)
    ensures
        r == size_of(rec@),
{
    match rec {
        FileMetadataExt::Symlink(s) => s.size,
        FileMetadataExt::File(f) => f.size,
        FileMetadataExt::Dir(d) => d.size,
    }
}

/// The variant's own leading fragment, executed.
fn render_own_field(before: &FileMetadataExt, after: &FileMetadataExt) -> (r: String)
    requires
        same_variant(before@, after@),
    ensures
        r@ =~= own_field_text(before@, after@),
{
    let mut r = String::new();
    match (before, after) {
        (FileMetadataExt::File(x), FileMetadataExt::File(y)) => {
            if !(x.hash == y.hash) {
                r.append(" hash changed ");
                r.append(x.hash.to_hex().as_str());
                r.append(" -> ");
                r.append(y.hash.to_hex().as_str());
            }
        },
        (FileMetadataExt::Symlink(x), FileMetadataExt::Symlink(y)) => {
            if !(x.data == y.data) {
                r.append(" changed ");
                r.append(x.data.as_str());
                r.append(" -> ");
                r.append(y.data.as_str());
            }
        },
        _ => {},
    }
    r
}

/// The shared trailing fragments, executed.
#[verifier::rlimit(30)]
fn render_shared_fields(before: &FileMetadataExt, after: &FileMetadataExt) -> (r: String)
    requires
        same_variant(before@, after@),
    ensures
        r@ =~= shared_fields_text(before@, after@),
{
    let f = field_changes_of(before, after);
    let mut r = String::new();
    if f.modified {
        r.append(" modified time changed ");
        r.append(render_time(modified_field(before)).as_str());
        r.append(" -> ");
        r.append(render_time(modified_field(after)).as_str());
    }
    let ghost first = r@;
    proof {
        assert(first =~= (
            if field_changes_spec(before@, after@).modified {
                " modified time changed "@ + time_display(modified_of(before@)) + " -> "@
                    + time_display(modified_of(after@))
            } else {
                Seq::<char>::empty()
            }
        ));
    }
    if f.permissions {
        r.append(" permissions changed ");
        r.append(oct_u32(permissions_field(before)).as_str());
        r.append(" -> ");
        r.append(oct_u32(permissions_field(after)).as_str());
    }
    let ghost second = r@;
    proof {
        assert(second =~= first + (
            if field_changes_spec(before@, after@).permissions {
                " permissions changed "@ + oct_str(permissions_of(before@) as nat) + " -> "@
                    + oct_str(permissions_of(after@) as nat)
            } else {
                Seq::<char>::empty()
            }
        ));
    }
    if f.size {
        r.append(" size changed ");
        r.append(dec_u64(size_field(before)).as_str());
        r.append(" -> ");
        r.append(dec_u64(size_field(after)).as_str());
    }
    r
}

/// The description of a reported same-variant change: the variant's own field
/// first, then time, permissions and size, each only where it differs.
pub fn describe_change(before: &FileMetadataExt, after: &FileMetadataExt) -> (r: String)
    requires
        same_variant(before@, after@),
    ensures
        r@ =~= change_text(before@, after@),
{
    let mut r = render_own_field(before, after);
    r.append(render_shared_fields(before, after).as_str());
    r
}

} // verus!
