//! Disk images on their way to a drive: whether one is gzip-compressed,
//! how many bytes a flash writes, and its SHA-256 checksum computed chunk
//! by chunk as the file is read.

use vstd::prelude::*;
use sha2::Digest;

verus! {

/// The gzip magic number opens the file.
pub open spec fn gzip_head(head: Seq<u8>) -> bool {
    head.len() >= 2 && head[0] == 0x1f && head[1] == 0x8b
}

/// Whether the first bytes of a file (two, or fewer when the file is
/// shorter) are the gzip magic number.
pub fn is_gzip_magic(head: &[u8]) -> (r: bool)
    ensures
        r == gzip_head(head@),
{
    head.len() >= 2 && head[0] == 0x1f && head[1] == 0x8b
}

/// A little-endian 32-bit number.
pub open spec fn le_u32(b: Seq<u8>) -> nat {
    b[0] as nat + 256 * (b[1] as nat) + 65536 * (b[2] as nat) + 16777216 * (b[3] as nat)
}

/// The uncompressed size that a gzip file declares in its last four bytes
/// (its `ISIZE` field).
pub fn gzip_isize(trailer: [u8; 4]) -> (r: u64)
    ensures
        r == le_u32(trailer@),
{
    trailer[0] as u64 + 256 * (trailer[1] as u64) + 65536 * (trailer[2] as u64) + 16777216 * (
    trailer[3] as u64)
}

/// The bytes that flashing an image writes: for a gzip image the size it
/// declares (its own size when that cannot be read), else its size.
pub fn image_total(is_gzip: bool, declared: Option<u64>, file_size: u64) -> (r: u64)
    ensures
        r == if is_gzip {
            match declared {
                Some(d) => d,
                None => file_size,
            }
        } else {
            file_size
        },
{
    if is_gzip {
        match declared {
            Some(d) => d,
            None => file_size,
        }
    } else {
        file_size
    }
}

#[verifier::external_type_specification]
#[verifier::external_body]
pub struct ExSha256(sha2::Sha256);

/// The bytes that a SHA-256 hasher has been fed.
pub uninterp spec fn sha256_input(h: sha2::Sha256) -> Seq<u8>;

/// The SHA-256 digest of a byte sequence.
pub uninterp spec fn sha256(data: Seq<u8>) -> Seq<u8>;

/// `sha2::Sha256::new` (through `Digest`): a hasher fed nothing.
#[verifier::external_body]
fn sha256_new() -> (r: sha2::Sha256)
    ensures
        sha256_input(r) == Seq::<u8>::empty(),
{
    sha2::Sha256::new()
}

/// `Digest::update`: the hasher has been fed `data` after what it had.
#[verifier::external_body]
fn sha256_update(h: &mut sha2::Sha256, data: &[u8])
    ensures
        sha256_input(*final(h)) == sha256_input(*old(h)) + data@,
{
    h.update(data);
}

/// `Digest::finalize`: the digest of everything the hasher was fed.
#[verifier::external_body]
fn sha256_finalize(h: sha2::Sha256) -> (r: [u8; 32])
    ensures
        r@ == sha256(sha256_input(h)),
{
    let out = h.finalize();
    let mut r = [0u8; 32];
    r.copy_from_slice(&out);
    r
}

/// A lowercase hexadecimal digit.
pub open spec fn hex_digit(n: int) -> char {
    if n < 10 {
        (n + 48) as char
    } else {
        (n + 87) as char
    }
}

/// Bytes written as lowercase hexadecimal, two digits each.
pub open spec fn hex_of(b: Seq<u8>) -> Seq<char>
    decreases b.len(),
{
    if b.len() == 0 {
        Seq::empty()
    } else {
        hex_of(b.drop_last()) + seq![hex_digit((b.last() / 16) as int), hex_digit((b.last() % 16) as int)]
    }
}

fn hex_char(n: u8) -> (r: char)
    requires
        n < 16,
    ensures
        r == hex_digit(n as int),
{
    if n < 10 {
        (n + 48) as char
    } else {
        (n + 87) as char
    }
}

/// Bytes as lowercase hexadecimal.
pub fn hex_lower(bytes: &[u8]) -> (r: String)
    ensures
        r@ == hex_of(bytes@),
{
    let mut out: Vec<char> = Vec::new();
    let mut i: usize = 0;
    while i < bytes.len()
        invariant
            i <= bytes@.len(),
            out@ == hex_of(bytes@.subrange(0, i as int)),
        decreases bytes@.len() - i,
    {
        let b = bytes[i];
        let hi = hex_char(b / 16);
        let lo = hex_char(b % 16);
        let ghost before = out@;
        out.push(hi);
        out.push(lo);
        proof {
            assert(bytes@.subrange(0, i + 1).drop_last() =~= bytes@.subrange(0, i as int));
            assert(out@ =~= before + seq![hi, lo]);
        }
        i = i + 1;
    }
    assert(bytes@.subrange(0, i as int) =~= bytes@);
    crate::text::string_of(&out)
}

/// A SHA-256 checksum being computed over a file read in chunks.
pub struct ImageChecksum {
    hasher: sha2::Sha256,
    read: u64,
}

impl ImageChecksum {
    /// The bytes checked so far.
    pub closed spec fn fed(&self) -> Seq<u8> {
        sha256_input(self.hasher)
    }

    #[verifier::type_invariant]
    closed spec fn counts_fed(&self) -> bool {
        self.read as nat == sha256_input(self.hasher).len()
    }

    /// A checksum of nothing yet.
    pub fn new() -> (r: ImageChecksum)
        ensures
            r.fed() == Seq::<u8>::empty(),
    {
        ImageChecksum { hasher: sha256_new(), read: 0 }
    }

    /// How many bytes have been checked.
    pub fn read_bytes(&self) -> (r: u64)
        ensures
            r == self.fed().len(),
    {
        proof {
            use_type_invariant(self);
        }
        self.read
    }

    /// Checks the next chunk of the file.
    pub fn feed(&mut self, chunk: &[u8])
        requires
            old(self).fed().len() + chunk@.len() <= u64::MAX,
        ensures
            final(self).fed() == old(self).fed() + chunk@,
    {
        let mut cur = ImageChecksum::new();
        std::mem::swap(&mut cur, self);
        proof {
            use_type_invariant(&cur);
        }
        let ImageChecksum { hasher, read } = cur;
        let mut h = hasher;
        sha256_update(&mut h, chunk);
        let n = chunk.len() as u64;
        let mut next = ImageChecksum { hasher: h, read: read + n };
        std::mem::swap(&mut next, self);
    }

    /// The checksum of everything checked, in lowercase hexadecimal.
    pub fn hex_digest(self) -> (r: String)
        ensures
            r@ == hex_of(sha256(self.fed())),
    {
        proof {
            use_type_invariant(&self);
        }
        let ImageChecksum { hasher, read: _ } = self;
        let d = sha256_finalize(hasher);
        hex_lower(&d)
    }
}

} // verus!
