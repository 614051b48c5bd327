//! The application descriptor: a fixed-size record of firmware identity that
//! flashing and update tools read from the image without running it.
use vstd::prelude::*;
use vstd::string::StringSliceAdditionalSpecFns;

verus! {

/// The bytes of `src` cut or zero-padded to exactly `n` bytes.
pub open spec fn fixed_bytes(src: Seq<u8>, n: nat) -> Seq<u8> {
    Seq::new(n, |i: int| if i < src.len() { src[i] } else { 0u8 })
}

/// Copies the bytes of `s` into an `N`-byte buffer: a longer text is cut at
/// the buffer's end, a shorter one is followed by zero bytes.
pub fn str_to_array<const N: usize>(s: &str) -> (arr: [u8; N])
    ensures
        arr@ == fixed_bytes(s.spec_bytes(), N as nat),
{
    let mut arr: [u8; N] = [0u8; N];
    let bytes = s.as_bytes();
    let len: usize = if bytes.len() > N {
        N
    } else {
        bytes.len()
    };
    let mut i: usize = 0;
    while i < len
        invariant
            i <= len,
            len <= N,
            len <= bytes@.len(),
            len == N || len == bytes@.len(),
            bytes@ == s.spec_bytes(),
            arr@.len() == N,
            forall|j: int| 0 <= j < i ==> arr@[j] == bytes@[j],
            forall|j: int| i <= j < N ==> arr@[j] == 0u8,
        decreases len - i,
    {
        arr[i] = bytes[i];
        i += 1;
    }
    assert(arr@ =~= fixed_bytes(s.spec_bytes(), N as nat));
    arr
}

/// The sentinel that marks the record for a loader.
pub const MAGIC_WORD: u32 = 0xABCD5432;

/// Size in bytes of the record's image.
pub const DESC_SIZE: usize = 256;

/// The firmware descriptor. Fields appear in the image in declaration order,
/// each word in little-endian byte order, with no padding between them.
pub struct AppDesc {
    pub magic_word: u32,
    pub secure_version: u32,
    pub reserv1: [u32; 2],
    pub version: [u8; 32],
    pub project_name: [u8; 32],
    pub time: [u8; 16],
    pub date: [u8; 16],
    pub idf_ver: [u8; 32],
    pub app_elf_sha256: [u8; 32],
    pub reserv2: [u32; 20],
}

/// The four bytes of `x`, least significant first.
pub open spec fn le_bytes(x: u32) -> Seq<u8> {
    seq![
        (x % 256) as u8,
        ((x / 256) % 256) as u8,
        ((x / 65536) % 256) as u8,
        (x / 16777216) as u8,
    ]
}

/// The words of `ws` one after another, each as `le_bytes`.
pub open spec fn words_le(ws: Seq<u32>) -> Seq<u8>
    decreases ws.len(),
{
    if ws.len() == 0 {
        Seq::empty()
    } else {
        words_le(ws.drop_last()) + le_bytes(ws.last())
    }
}

/// The bytes of the descriptor's image, field after field.
pub open spec fn image(d: AppDesc) -> Seq<u8> {
    le_bytes(d.magic_word) + le_bytes(d.secure_version) + words_le(d.reserv1@) + d.version@
        + d.project_name@ + d.time@ + d.date@ + d.idf_ver@ + d.app_elf_sha256@ + words_le(
        d.reserv2@,
    )
}

/// Whether `d` is the descriptor built from these inputs: the sentinel, the
/// given anti-rollback counter, every text cut or padded to its field, and
/// zero in the digest and the reserved words.
pub open spec fn is_built_from(
    d: AppDesc,
    secure_version: u32,
    version: Seq<u8>,
    project_name: Seq<u8>,
    time: Seq<u8>,
    date: Seq<u8>,
    idf_ver: Seq<u8>,
) -> bool {
    &&& d.magic_word == MAGIC_WORD
    &&& d.secure_version == secure_version
    &&& d.reserv1@ == Seq::new(2, |i: int| 0u32)
    &&& d.version@ == fixed_bytes(version, 32)
    &&& d.project_name@ == fixed_bytes(project_name, 32)
    &&& d.time@ == fixed_bytes(time, 16)
    &&& d.date@ == fixed_bytes(date, 16)
    &&& d.idf_ver@ == fixed_bytes(idf_ver, 32)
    &&& d.app_elf_sha256@ == Seq::new(32, |i: int| 0u8)
    &&& d.reserv2@ == Seq::new(20, |i: int| 0u32)
}

/// Assembles the descriptor: the sentinel, the anti-rollback counter as
/// given, each text truncated to its field, and zero everywhere else.
pub fn build_descriptor(
    secure_version: u32,
    version: &str,
    project_name: &str,
    time: &str,
    date: &str,
    idf_ver: &str,
) -> (d: AppDesc)
    ensures
        is_built_from(
            d,
            secure_version,
            version.spec_bytes(),
            project_name.spec_bytes(),
            time.spec_bytes(),
            date.spec_bytes(),
            idf_ver.spec_bytes(),
        ),
        d.magic_word == MAGIC_WORD,
{
    let d = AppDesc {
        magic_word: MAGIC_WORD,
        secure_version,
        reserv1: [0u32; 2],
        version: str_to_array(version),
        project_name: str_to_array(project_name),
        time: str_to_array(time),
        date: str_to_array(date),
        idf_ver: str_to_array(idf_ver),
        app_elf_sha256: [0u8; 32],
        reserv2: [0u32; 20],
    };
    assert(d.reserv1@ =~= Seq::new(2, |i: int| 0u32));
    assert(d.app_elf_sha256@ =~= Seq::new(32, |i: int| 0u8));
    assert(d.reserv2@ =~= Seq::new(20, |i: int| 0u32));
    d
}

/// `words_le` gives four bytes per word.
pub proof fn lemma_words_le_len(ws: Seq<u32>)
    ensures
        words_le(ws).len() == 4 * ws.len(),
    decreases ws.len(),
{
    if ws.len() > 0 {
        lemma_words_le_len(ws.drop_last());
    }
}

/// Every descriptor's image is 256 bytes long and holds each field at the
/// same offset, whatever the fields' contents: a loader can find a field
/// without reading any other.
pub proof fn lemma_layout(d: AppDesc)
    ensures
        image(d).len() == DESC_SIZE,
        image(d).subrange(0, 4) == le_bytes(d.magic_word),
        image(d).subrange(4, 8) == le_bytes(d.secure_version),
        image(d).subrange(8, 16) == words_le(d.reserv1@),
        image(d).subrange(16, 48) == d.version@,
        image(d).subrange(48, 80) == d.project_name@,
        image(d).subrange(80, 96) == d.time@,
        image(d).subrange(96, 112) == d.date@,
        image(d).subrange(112, 144) == d.idf_ver@,
        image(d).subrange(144, 176) == d.app_elf_sha256@,
        image(d).subrange(176, 256) == words_le(d.reserv2@),
{
    lemma_words_le_len(d.reserv1@);
    lemma_words_le_len(d.reserv2@);
    let a = le_bytes(d.magic_word);
    let b = a + le_bytes(d.secure_version);
    let c = b + words_le(d.reserv1@);
    let e = c + d.version@;
    let f = e + d.project_name@;
    let g = f + d.time@;
    let h = g + d.date@;
    let k = h + d.idf_ver@;
    let m = k + d.app_elf_sha256@;
    let n = m + words_le(d.reserv2@);
    assert(n == image(d));
    assert(n.subrange(0, 4) =~= a);
    assert(n.subrange(4, 8) =~= le_bytes(d.secure_version));
    assert(n.subrange(8, 16) =~= words_le(d.reserv1@));
    assert(n.subrange(16, 48) =~= d.version@);
    assert(n.subrange(48, 80) =~= d.project_name@);
    assert(n.subrange(80, 96) =~= d.time@);
    assert(n.subrange(96, 112) =~= d.date@);
    assert(n.subrange(112, 144) =~= d.idf_ver@);
    assert(n.subrange(144, 176) =~= d.app_elf_sha256@);
    assert(n.subrange(176, 256) =~= words_le(d.reserv2@));
}

/// Two descriptors built from the same inputs have the same image, byte for
/// byte.
pub proof fn lemma_reproducible(
    d1: AppDesc,
    d2: AppDesc,
    secure_version: u32,
    version: Seq<u8>,
    project_name: Seq<u8>,
    time: Seq<u8>,
    date: Seq<u8>,
    idf_ver: Seq<u8>,
)
    requires
        is_built_from(d1, secure_version, version, project_name, time, date, idf_ver),
        is_built_from(d2, secure_version, version, project_name, time, date, idf_ver),
    ensures
        image(d1) == image(d2),
        image(d1).len() == DESC_SIZE,
{
    lemma_layout(d1);
}

/// Appends the four bytes of `x`, least significant first.
fn push_word(out: &mut Vec<u8>, x: u32)
    ensures
        final(out)@ == old(out)@ + le_bytes(x),
{
    out.push((x % 256) as u8);
    out.push(((x / 256) % 256) as u8);
    out.push(((x / 65536) % 256) as u8);
    out.push((x / 16777216) as u8);
    assert(final(out)@ =~= old(out)@ + le_bytes(x));
}

/// Appends each word of `ws` as four bytes.
fn push_words(out: &mut Vec<u8>, ws: &[u32])
    ensures
        final(out)@ == old(out)@ + words_le(ws@),
{
    let mut i: usize = 0;
    while i < ws.len()
        invariant
            i <= ws@.len(),
            out@ == old(out)@ + words_le(ws@.subrange(0, i as int)),
        decreases ws@.len() - i,
    {
        push_word(out, ws[i]);
        assert(ws@.subrange(0, i + 1).drop_last() =~= ws@.subrange(0, i as int));
        assert(out@ =~= old(out)@ + words_le(ws@.subrange(0, i + 1)));
        i += 1;
    }
    assert(ws@.subrange(0, i as int) =~= ws@);
}

/// Appends the bytes of `bs`.
fn push_bytes(out: &mut Vec<u8>, bs: &[u8])
    ensures
        final(out)@ == old(out)@ + bs@,
{
    let mut i: usize = 0;
    while i < bs.len()
        invariant
            i <= bs@.len(),
            out@ == old(out)@ + bs@.subrange(0, i as int),
        decreases bs@.len() - i,
    {
        out.push(bs[i]);
        assert(out@ =~= old(out)@ + bs@.subrange(0, i + 1));
        i += 1;
    }
    assert(bs@.subrange(0, i as int) =~= bs@);
}

impl AppDesc {
    /// The record as it lies in the image: 256 bytes, field after field.
    pub fn to_bytes(&self) -> (r: Vec<u8>)
        ensures
            r@ == image(*self),
            r@.len() == DESC_SIZE,
    {
        proof {
            lemma_layout(*self);
        }
        let mut out: Vec<u8> = Vec::new();
        push_word(&mut out, self.magic_word);
        push_word(&mut out, self.secure_version);
        push_words(&mut out, self.reserv1.as_slice());
        push_bytes(&mut out, self.version.as_slice());
        push_bytes(&mut out, self.project_name.as_slice());
        push_bytes(&mut out, self.time.as_slice());
        push_bytes(&mut out, self.date.as_slice());
        push_bytes(&mut out, self.idf_ver.as_slice());
        push_bytes(&mut out, self.app_elf_sha256.as_slice());
        push_words(&mut out, self.reserv2.as_slice());
        assert(out@ =~= image(*self));
        out
    }
}

} // verus!
