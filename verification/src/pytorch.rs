//! PyTorch `.pt`/`.pth` checkpoints: a ZIP archive (stored entries) with
//! `archive/data.pkl` and the raw tensor blobs under `archive/data/`. The
//! entries are found through the central directory; the blobs are loaded
//! as flat `f32` tensors named after their entries.

use vstd::prelude::*;
use vstd::slice::{slice_subrange, slice_to_vec};
use crate::dtype::DType;
use crate::ggml::{string_from_utf8_lossy, texts, u16_le, u32_le, utf8_lossy};
use crate::gguf::{u16_at, u32_at};
use crate::graph::{fixed_dims, graph_loads, last_loaded, lemma_last_loaded, Graph, LoadedTensor, Residency, TensorMeta, WeightData};
use crate::namemap::{names_of, NameMap};
use crate::npz::{find_sub, starts_with};
use crate::text::{chars_slice, concat_str, string_of, to_chars};

verus! {

/// Why a checkpoint is refused.
#[derive(Clone, Copy, Debug, PartialEq, Eq, Structural)]
pub enum PytorchError {
    /// No end-of-central-directory record was found.
    NoEndOfDirectory,
    /// Neither `data.pkl` nor `archive/data.pkl` is in the archive.
    NoDataPkl,
}

// ---- End of central directory ----

/// The end-of-central-directory signature `PK\x05\x06` is at `i`.
pub open spec fn eocd_sig_at(b: Seq<u8>, i: int) -> bool {
    b[i] == 0x50 && b[i + 1] == 0x4b && b[i + 2] == 0x05 && b[i + 3] == 0x06
}

/// The last position below `n` holding the end-of-central-directory
/// signature.
pub open spec fn eocd_below(b: Seq<u8>, n: int) -> Option<int>
    decreases n,
{
    if n <= 0 {
        None
    } else if eocd_sig_at(b, n - 1) {
        Some(n - 1)
    } else {
        eocd_below(b, n - 1)
    }
}

/// The end-of-central-directory record: the last signature at or below
/// `len - 22` (the record is 22 bytes long before its comment).
pub open spec fn eocd_pos(b: Seq<u8>) -> Option<int> {
    eocd_below(b, if b.len() >= 22 { b.len() - 21 } else { 0 })
}

/// Where the central directory starts, as recorded at `e`.
pub open spec fn cd_offset(b: Seq<u8>, e: int) -> int {
    u32_at(b, e + 16) as int
}

// ---- Central directory ----

/// A directory record of the reader: name, then data offset and size.
pub type DirEntry = (Seq<char>, (u64, u64));

/// A central-directory header starts at `p`.
pub open spec fn cd_entry_at(b: Seq<u8>, p: int) -> bool {
    0 <= p && p + 46 <= b.len() && u32_at(b, p) == 0x02014b50
}

/// Where the name of the central-directory header at `p` ends.
pub open spec fn cd_name_end(b: Seq<u8>, p: int) -> int {
    p + 46 + u16_at(b, p + 28)
}

/// Where the next central-directory header after `p` starts.
pub open spec fn cd_next(b: Seq<u8>, p: int) -> int {
    cd_name_end(b, p) + u16_at(b, p + 30) + u16_at(b, p + 32)
}

/// The record of the header at `p`: its name, the offset of its data (after
/// the local header, its name and extra field) and its uncompressed size;
/// none when the local header does not fit in the file.
pub open spec fn cd_record(b: Seq<u8>, p: int) -> Option<DirEntry> {
    let lh = u32_at(b, p + 42) as int;
    if lh + 30 <= b.len() {
        Some(
            (
                utf8_lossy(b.subrange(p + 46, cd_name_end(b, p))),
                ((lh + 30 + u16_at(b, lh + 26) + u16_at(b, lh + 28)) as u64, u32_at(b, p + 24) as u64),
            ),
        )
    } else {
        None
    }
}

/// The records from `p` on, and whether a header's name runs past the end
/// of the file (where reading stops).
pub open spec fn cd_walk(b: Seq<u8>, p: int) -> (Seq<DirEntry>, bool)
    decreases b.len() - p,
{
    if !cd_entry_at(b, p) {
        (Seq::empty(), false)
    } else if cd_name_end(b, p) > b.len() {
        (Seq::empty(), true)
    } else {
        let rest = if cd_next(b, p) + 46 <= b.len() {
            cd_walk(b, cd_next(b, p))
        } else {
            (Seq::empty(), false)
        };
        match cd_record(b, p) {
            Some(r) => (seq![r] + rest.0, rest.1),
            None => rest,
        }
    }
}

/// The map made by inserting the records in order (a later record with the
/// same name replaces an earlier one).
pub open spec fn cd_map(s: Seq<DirEntry>) -> Map<Seq<char>, (u64, u64)>
    decreases s.len(),
{
    if s.len() == 0 {
        Map::empty()
    } else {
        cd_map(s.drop_last()).insert(s.last().0, s.last().1)
    }
}

/// The names of the records in order, each at its first occurrence.
pub open spec fn first_names(s: Seq<DirEntry>) -> Seq<Seq<char>>
    decreases s.len(),
{
    if s.len() == 0 {
        Seq::empty()
    } else {
        let p = first_names(s.drop_last());
        if p.contains(s.last().0) {
            p
        } else {
            p.push(s.last().0)
        }
    }
}

/// The names listed first-occurrence-first hold no name twice and are
/// exactly the names that the record map holds.
pub proof fn lemma_first_names(s: Seq<DirEntry>)
    ensures
        first_names(s).no_duplicates(),
        forall|k: Seq<char>| #[trigger] cd_map(s).contains_key(k) <==> first_names(s).contains(k),
    decreases s.len(),
{
    if s.len() > 0 {
        lemma_first_names(s.drop_last());
        let p = first_names(s.drop_last());
        let x = s.last().0;
        if !p.contains(x) {
            assert forall|k: Seq<char>| #[trigger] p.push(x).contains(k) <==> (p.contains(k) || k == x) by {
                if p.push(x).contains(k) {
                    let j = choose|j: int| 0 <= j < p.push(x).len() && p.push(x)[j] == k;
                    if j < p.len() {
                        assert(p[j] == k);
                    }
                }
                if p.contains(k) {
                    let j = choose|j: int| 0 <= j < p.len() && p[j] == k;
                    assert(p.push(x)[j] == k);
                }
                if k == x {
                    assert(p.push(x)[p.len() as int] == k);
                }
            }
        }
        assert forall|k: Seq<char>| #[trigger] cd_map(s).contains_key(k) <==> first_names(s).contains(k) by {
            assert(cd_map(s).contains_key(k) <==> (cd_map(s.drop_last()).contains_key(k) || k == x));
            assert(cd_map(s.drop_last()).contains_key(k) <==> p.contains(k));
        }
    }
}

/// The archive has a central directory in which a header's name runs past
/// the end of the file.
pub open spec fn zip_overruns(b: Seq<u8>) -> bool {
    match eocd_pos(b) {
        Some(e) => cd_walk(b, cd_offset(b, e)).1,
        None => false,
    }
}

/// The last end-of-central-directory signature at or below `len - 22`.
fn find_eocd(data: &[u8]) -> (r: Option<usize>)
    ensures
        r matches Some(i) ==> eocd_pos(data@) == Some(i as int) && i + 22 <= data@.len(),
        r is None ==> eocd_pos(data@) is None,
{
    let n = data.len();
    let top: usize = if n >= 22 { n - 21 } else { 0 };
    let mut i: usize = top;
    while i > 0
        invariant
            n == data@.len(),
            i <= top,
            top == (if n >= 22 { n - 21 } else { 0 }),
            eocd_pos(data@) == eocd_below(data@, i as int),
        decreases i,
    {
        let j = i - 1;
        if data[j] == 0x50 && data[j + 1] == 0x4b && data[j + 2] == 0x05 && data[j + 3] == 0x06 {
            return Some(j);
        }
        i = j;
    }
    None
}

/// Read the central directory from `start`; `None` when a header's name
/// runs past the end of the file.
fn read_directory(data: &[u8], start: usize) -> (r: Option<NameMap<(u64, u64)>>)
    ensures
        cd_walk(data@, start as int).1 <==> r is None,
        r matches Some(m) ==> m@ == cd_map(cd_walk(data@, start as int).0),
        r matches Some(m) ==> names_of(m.entry_seq()) == first_names(cd_walk(data@, start as int).0),
{
    let mut m: NameMap<(u64, u64)> = NameMap::new();
    let ghost mut done: Seq<DirEntry> = Seq::empty();
    let n = data.len();
    let mut pos: usize = start;
    proof {
        assert(done + cd_walk(data@, pos as int).0 =~= cd_walk(data@, pos as int).0);
    }
    while pos <= n && n - pos >= 46 && u32_le(data, pos) == 0x02014b50
        invariant
            n == data@.len(),
            cd_walk(data@, start as int).0 == done + cd_walk(data@, pos as int).0,
            cd_walk(data@, start as int).1 == cd_walk(data@, pos as int).1,
            m@ == cd_map(done),
            names_of(m.entry_seq()) == first_names(done),
        ensures
            cd_walk(data@, start as int).0 == done + cd_walk(data@, pos as int).0,
            cd_walk(data@, start as int).1 == cd_walk(data@, pos as int).1,
            m@ == cd_map(done),
            names_of(m.entry_seq()) == first_names(done),
            !cd_entry_at(data@, pos as int) || (cd_walk(data@, pos as int) == (Seq::<DirEntry>::empty(), false)),
        decreases n - pos,
    {
        let size = u32_le(data, pos + 24) as u64;
        let nl = u16_le(data, pos + 28) as usize;
        let el = u16_le(data, pos + 30) as u64;
        let cl = u16_le(data, pos + 32) as u64;
        let lh = u32_le(data, pos + 42) as usize;
        if n - pos - 46 < nl {
            return None;
        }
        let ne = pos + 46 + nl;
        let ghost rest = if cd_next(data@, pos as int) + 46 <= n {
            cd_walk(data@, cd_next(data@, pos as int))
        } else {
            (Seq::<DirEntry>::empty(), false)
        };
        if lh <= n && n - lh >= 30 {
            let name = string_from_utf8_lossy(slice_subrange(data, pos + 46, ne));
            let off: u64 = lh as u64 + 30 + u16_le(data, lh + 26) as u64 + u16_le(data, lh + 28) as u64;
            let ghost r: DirEntry = (name@, (off, size));
            proof {
                assert(cd_record(data@, pos as int) == Some(r));
                assert(done.push(r).drop_last() =~= done);
                assert(done + (seq![r] + rest.0) =~= done.push(r) + rest.0);
            }
            proof {
                lemma_first_names(done);
            }
            m.insert(name, (off, size));
            proof {
                done = done.push(r);
                assert(done.drop_last() =~= done.subrange(0, done.len() - 1));
            }
        }
        let next: u128 = ne as u128 + el as u128 + cl as u128;
        if next > n as u128 || n as u128 - next < 46 {
            proof {
                assert(done + Seq::<DirEntry>::empty() =~= done);
            }
            return Some(m);
        }
        pos = next as usize;
    }
    proof {
        assert(done + Seq::<DirEntry>::empty() =~= done);
    }
    Some(m)
}

/// Whether the central directory of the archive has a header whose name
/// runs past the end of the file.
pub fn zip_directory_overruns(data: &[u8]) -> (r: bool)
    ensures
        r == zip_overruns(data@),
{
    let n = data.len();
    match find_eocd(data) {
        Some(e) => read_directory(data, u32_le(data, e + 16) as usize).is_none(),
        None => false,
    }
}

// ---- Reader ----

/// A ZIP archive read through its central directory (stored entries only).
pub struct ZipReader {
    entries: NameMap<(u64, u64)>,
    data: Vec<u8>,
}

/// The data range of entry `k`, when it is recorded and fits in the file.
pub open spec fn zip_lookup(m: Map<Seq<char>, (u64, u64)>, len: int, k: Seq<char>) -> Option<(int, int)> {
    if m.contains_key(k) && m[k].0 + m[k].1 <= len {
        Some((m[k].0 as int, m[k].0 + m[k].1))
    } else {
        None
    }
}

/// The data range of `name`, trying the name itself, then `archive/` and
/// the name.
pub open spec fn zip_get(m: Map<Seq<char>, (u64, u64)>, len: int, name: Seq<char>) -> Option<(int, int)> {
    match zip_lookup(m, len, name) {
        Some(r) => Some(r),
        None => zip_lookup(m, len, "archive/"@ + name),
    }
}

impl ZipReader {
    /// The recorded entries: name to (data offset, size).
    pub closed spec fn spec_entries(&self) -> Map<Seq<char>, (u64, u64)> {
        self.entries@
    }

    /// The entry names in the order the directory lists them.
    pub closed spec fn spec_names(&self) -> Seq<Seq<char>> {
        names_of(self.entries.entry_seq())
    }

    /// The archive bytes.
    pub closed spec fn spec_data(&self) -> Seq<u8> {
        self.data@
    }

    /// Read the central directory of an archive.
    pub fn new(data: Vec<u8>) -> (r: Result<Self, PytorchError>)
        requires
            !zip_overruns(data@),
        ensures
            match eocd_pos(data@) {
                None => r == Err::<Self, PytorchError>(PytorchError::NoEndOfDirectory),
                Some(e) => r matches Ok(z) && z.spec_data() == data@ && z.spec_entries() == cd_map(
                    cd_walk(data@, cd_offset(data@, e)).0,
                ) && z.spec_names() == first_names(cd_walk(data@, cd_offset(data@, e)).0),
            },
            r matches Ok(z) ==> {
                &&& z.spec_names().no_duplicates()
                &&& forall|k: Seq<char>| #[trigger] z.spec_entries().contains_key(k) <==> z.spec_names().contains(k)
            },
    {
        let n = data.len();
        let e = match find_eocd(data.as_slice()) {
            Some(e) => e,
            None => return Err(PytorchError::NoEndOfDirectory),
        };
        let start = u32_le(data.as_slice(), e + 16) as usize;
        match read_directory(data.as_slice(), start) {
            Some(entries) => {
                proof {
                    lemma_first_names(cd_walk(data@, start as int).0);
                }
                Ok(ZipReader { entries, data })
            },
            None => Err(PytorchError::NoEndOfDirectory),
        }
    }

    /// The data range of entry `k`.
    fn range_of(&self, k: &str) -> (r: Option<(usize, usize)>)
        ensures
            r matches Some((s, e)) ==> zip_lookup(self.spec_entries(), self.spec_data().len() as int, k@) == Some(
                (s as int, e as int),
            ) && s <= e <= self.spec_data().len(),
            r is None ==> zip_lookup(self.spec_entries(), self.spec_data().len() as int, k@) is None,
    {
        let n = self.data.len();
        match self.entries.get(k) {
            Some(v) => {
                let (off, size) = *v;
                match off.checked_add(size) {
                    Some(end) => if end <= n as u64 {
                        Some((off as usize, end as usize))
                    } else {
                        None
                    },
                    None => None,
                }
            },
            None => None,
        }
    }

    /// The data of entry `name` (or of `archive/` and the name), when it
    /// fits in the file.
    pub fn get(&self, name: &str) -> (r: Option<&[u8]>)
        ensures
            match zip_get(self.spec_entries(), self.spec_data().len() as int, name@) {
                Some((s, e)) => r matches Some(v) && v@ == self.spec_data().subrange(s, e),
                None => r is None,
            },
    {
        match self.range_of(name) {
            Some((s, e)) => Some(slice_subrange(self.data.as_slice(), s, e)),
            None => {
                let alt = concat_str("archive/", name);
                match self.range_of(alt.as_str()) {
                    Some((s, e)) => Some(slice_subrange(self.data.as_slice(), s, e)),
                    None => None,
                }
            },
        }
    }

    /// The entry names in directory order.
    pub fn list(&self) -> (r: Vec<String>)
        ensures
            texts(r@) == self.spec_names(),
    {
        let mut out: Vec<String> = Vec::new();
        let mut i: usize = 0;
        let len = self.entries.len();
        while i < len
            invariant
                len == self.entries.entry_seq().len(),
                i <= len,
                out@.len() == i,
                texts(out@) == self.spec_names().take(i as int),
            decreases len - i,
        {
            let (name, _) = self.entries.entry(i);
            let ghost before = out@;
            out.push(name.clone());
            proof {
                assert(out@[i as int]@ == self.spec_names()[i as int]);
                assert forall|j: int| 0 <= j < i + 1 implies #[trigger] texts(out@)[j]
                    == self.spec_names().take(i + 1)[j] by {
                    if j < i {
                        assert(out@[j] == before[j]);
                        assert(texts(before)[j] == self.spec_names().take(i as int)[j]);
                    }
                }
                assert(texts(out@) =~= self.spec_names().take(i + 1));
            }
            i = i + 1;
        }
        proof {
            assert(self.spec_names().take(i as int) =~= self.spec_names());
        }
        out
    }
}

// ---- Loading ----

/// A raw blob entry: its name holds `/data/` and does not end in `/`.
pub open spec fn is_blob_name(k: Seq<char>) -> bool {
    find_sub(k, "/data/"@) is Some && !(k.len() > 0 && k.last() == '/')
}

/// The tensor name of a blob: its entry name without `archive/`.
pub open spec fn blob_tensor_name(k: Seq<char>) -> Seq<char> {
    if starts_with(k, "archive/"@) {
        k.subrange("archive/"@.len() as int, k.len() as int)
    } else {
        k
    }
}

/// The blobs among the named entries, in order, as flat `f32` tensors of
/// `len / 4` elements.
pub open spec fn blob_tensors(names: Seq<Seq<char>>, m: Map<Seq<char>, (u64, u64)>, data: Seq<u8>) -> Seq<
    LoadedTensor,
>
    decreases names.len(),
{
    if names.len() == 0 {
        Seq::empty()
    } else {
        let prev = blob_tensors(names.drop_last(), m, data);
        let k = names.last();
        if is_blob_name(k) {
            match zip_get(m, data.len() as int, k) {
                Some((s, e)) => prev.push(
                    (blob_tensor_name(k), seq![((e - s) / 4) as usize], DType::F32, data.subrange(s, e)),
                ),
                None => prev,
            }
        } else {
            prev
        }
    }
}

/// Whether `k` names a blob.
fn blob_name(k: &String) -> (r: bool)
    ensures
        r == is_blob_name(k@),
{
    let cs = to_chars(k.as_str());
    let pat = to_chars("/data/");
    let found = crate::npz::find_chars(&cs, &pat).is_some();
    let n = cs.len();
    found && !(n > 0 && cs[n - 1] == '/')
}

/// The tensor name of a blob.
fn blob_name_of(k: &String) -> (r: String)
    ensures
        r@ == blob_tensor_name(k@),
{
    let cs = to_chars(k.as_str());
    let pre = to_chars("archive/");
    if crate::text::chars_start_with(&cs, &pre) {
        string_of(&chars_slice(&cs, pre.len(), cs.len()))
    } else {
        string_of(&cs)
    }
}

/// The tensors of a checkpoint. The archive must hold `data.pkl` (directly
/// or under `archive/`); each blob entry under `data/` becomes a flat `f32`
/// tensor named after its entry without `archive/`.
pub fn pytorch_graph(zip: &ZipReader) -> (r: Result<Graph, PytorchError>)
    ensures
        zip_get(zip.spec_entries(), zip.spec_data().len() as int, "data.pkl"@) is None && zip_get(
            zip.spec_entries(),
            zip.spec_data().len() as int,
            "archive/data.pkl"@,
        ) is None ==> r == Err::<Graph, PytorchError>(PytorchError::NoDataPkl),
        zip_get(zip.spec_entries(), zip.spec_data().len() as int, "data.pkl"@) is Some || zip_get(
            zip.spec_entries(),
            zip.spec_data().len() as int,
            "archive/data.pkl"@,
        ) is Some ==> (r matches Ok(g) && graph_loads(
            g,
            blob_tensors(zip.spec_names(), zip.spec_entries(), zip.spec_data()),
        )),
{
    if zip.get("data.pkl").is_none() && zip.get("archive/data.pkl").is_none() {
        return Err(PytorchError::NoDataPkl);
    }
    let names = zip.list();
    let ghost ns = texts(names@);
    let ghost m = zip.spec_entries();
    let ghost d = zip.spec_data();
    let mut g = Graph::new();
    let mut i: usize = 0;
    proof {
        assert(ns.take(0) =~= Seq::<Seq<char>>::empty());
        assert forall|k: Seq<char>| #[trigger] g.weights@.contains_key(k) <==> last_loaded(
            blob_tensors(ns.take(0), m, d),
            k,
        ) is Some by {}
        assert forall|k: Seq<char>| #[trigger] g.tensors@.contains_key(k) <==> last_loaded(
            blob_tensors(ns.take(0), m, d),
            k,
        ) is Some by {}
    }
    while i < names.len()
        invariant
            ns == texts(names@),
            ns == zip.spec_names(),
            m == zip.spec_entries(),
            d == zip.spec_data(),
            i <= names@.len(),
            graph_loads(g, blob_tensors(ns.take(i as int), m, d)),
        decreases names@.len() - i,
    {
        let ghost pre = blob_tensors(ns.take(i as int), m, d);
        proof {
            assert(ns.take(i + 1).drop_last() =~= ns.take(i as int));
            assert(ns.take(i + 1).last() == names@[i as int]@);
        }
        if blob_name(&names[i]) {
            match zip.get(names[i].as_str()) {
                Some(raw) => {
                    let name = blob_name_of(&names[i]);
                    let numel = raw.len() / 4;
                    let shape: Vec<usize> = vec![numel];
                    let data = slice_to_vec(raw);
                    let ghost t: LoadedTensor = (name@, shape@, DType::F32, data@);
                    let meta = TensorMeta::weight(crate::safetensors::clone_dims(&shape), DType::F32);
                    let w = WeightData { data, shape, dtype: DType::F32 };
                    g.add_tensor(name.clone(), meta);
                    g.add_weight(name, w);
                    proof {
                        let post = pre.push(t);
                        assert(t.1 =~= seq![numel]);
                        assert(blob_tensors(ns.take(i + 1), m, d) == post);
                        assert(post.drop_last() =~= pre);
                        assert forall|k: Seq<char>| #[trigger] g.weights@.contains_key(k) <==> last_loaded(post, k) is Some by {}
                        assert forall|k: Seq<char>| #[trigger] g.tensors@.contains_key(k) <==> last_loaded(post, k) is Some by {}
                        assert forall|k: Seq<char>| #[trigger] last_loaded(post, k) is Some implies {
                            let u = post[last_loaded(post, k)->0];
                            &&& g.weights@[k].data@ == u.3
                            &&& g.weights@[k].shape@ == u.1
                            &&& g.weights@[k].dtype == u.2
                            &&& g.tensors@[k].shape@ == fixed_dims(u.1)
                            &&& g.tensors@[k].dtype == u.2
                            &&& g.tensors@[k].residency == Residency::Resident
                        } by {
                            if k != t.0 {
                                lemma_last_loaded(pre, k);
                                let j = last_loaded(pre, k)->0;
                                assert(post[j] == pre[j]);
                            }
                        }
                    }
                },
                None => {
                    proof {
                        assert(blob_tensors(ns.take(i + 1), m, d) == pre);
                    }
                },
            }
        } else {
            proof {
                assert(blob_tensors(ns.take(i + 1), m, d) == pre);
            }
        }
        i = i + 1;
    }
    proof {
        assert(ns.take(i as int) =~= ns);
    }
    Ok(g)
}

} // verus!
