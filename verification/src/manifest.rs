//! Manifest model and parser.
//!
//! A manifest is a tabular text document, one row per file to materialize.
//! Rows are separated by line feeds; blank rows are ignored. A row's fields
//! are separated by commas: relative path, declared byte length, expected
//! content digest, then the file's chunk descriptors as alternating
//! length and digest fields. Malformed rows fail the whole parse.
//!
//! Invariant of a well-formed entry: the chunk lengths sum to the declared
//! file length. The parser refuses any manifest that violates it.

use vstd::prelude::*;

verus! {

/// Row separator in manifest text.
pub const ROW_SEP: u8 = 10;

/// Field separator in manifest text.
pub const FIELD_SEP: u8 = 44;

/// One independently fetchable and verifiable byte range of a file.
#[derive(Clone, Copy, PartialEq, Eq, Structural, Debug)]
pub struct Chunk {
    /// Number of bytes in this chunk.
    pub length: u64,
    /// Expected digest of this chunk's bytes.
    pub digest: u64,
}

/// Mathematical model of one manifest row: a file to materialize.
#[verifier::ext_equal]
pub ghost struct EntryModel {
    /// Relative install path, as bytes.
    pub path: Seq<u8>,
    /// Declared byte length of the whole file.
    pub size: u64,
    /// Expected digest of the whole file.
    pub digest: u64,
    /// Ordered chunk descriptors whose concatenation is the file.
    pub chunks: Seq<Chunk>,
}

/// One file to materialize: relative path, declared length, expected
/// whole-file digest, and the ordered chunks that reconstruct it.
#[derive(Clone, Debug)]
pub struct ManifestEntry {
    /// Relative install path, as bytes.
    pub path: Vec<u8>,
    /// Declared byte length of the whole file.
    pub size: u64,
    /// Expected digest of the whole file.
    pub digest: u64,
    /// Ordered chunk descriptors whose concatenation is the file.
    pub chunks: Vec<Chunk>,
}

impl View for ManifestEntry {
    type V = EntryModel;

    open spec fn view(&self) -> EntryModel {
        EntryModel {
            path: self.path@,
            size: self.size,
            digest: self.digest,
            chunks: self.chunks@,
        }
    }
}

/// An ordered sequence of manifest entries, in declaration order.
#[derive(Clone, Debug)]
pub struct Manifest {
    /// The entries, in the manifest's declaration order.
    pub entries: Vec<ManifestEntry>,
}

impl View for Manifest {
    type V = Seq<EntryModel>;

    open spec fn view(&self) -> Seq<EntryModel> {
        self.entries@.map_values(|e: ManifestEntry| e@)
    }
}

/// Sum of the declared chunk lengths.
pub open spec fn chunk_sum(chunks: Seq<Chunk>) -> int
    decreases chunks.len(),
{
    if chunks.len() == 0 {
        0
    } else {
        chunk_sum(chunks.drop_last()) + chunks.last().length
    }
}

/// A well-formed entry: its chunk lengths sum to its declared length.
pub open spec fn entry_wf(e: EntryModel) -> bool {
    chunk_sum(e.chunks) == e.size
}

/// A well-formed manifest: every entry is well formed.
pub open spec fn manifest_wf(es: Seq<EntryModel>) -> bool {
    forall|i: int| 0 <= i < es.len() ==> entry_wf(#[trigger] es[i])
}

/// Why one row was refused.
#[derive(Clone, Copy, PartialEq, Eq, Structural, Debug)]
pub enum RowError {
    /// Too few fields, an unpaired chunk field, or an empty path.
    MissingField,
    /// A length or digest field is not a decimal number fitting 64 bits.
    BadNumber,
    /// The chunk lengths do not sum to the declared file length.
    LengthMismatch,
}

/// Why a manifest was refused: the offending row and the reason.
#[derive(Clone, Copy, PartialEq, Eq, Structural, Debug)]
pub struct ManifestParseError {
    /// Index of the offending row among the manifest's rows.
    pub row: usize,
    /// What was wrong with that row.
    pub kind: RowError,
}

/// Splitting a byte sequence on a separator: `cur` is the field being
/// accumulated, `acc` the fields already complete.
pub open spec fn split_from(s: Seq<u8>, sep: u8, cur: Seq<u8>, acc: Seq<Seq<u8>>) -> Seq<Seq<u8>>
    decreases s.len(),
{
    if s.len() == 0 {
        acc.push(cur)
    } else if s[0] == sep {
        split_from(s.drop_first(), sep, Seq::empty(), acc.push(cur))
    } else {
        split_from(s.drop_first(), sep, cur.push(s[0]), acc)
    }
}

/// The fields of `s` split on `sep`. Always at least one field; a trailing
/// separator yields a final empty field.
pub open spec fn split_spec(s: Seq<u8>, sep: u8) -> Seq<Seq<u8>> {
    split_from(s, sep, Seq::empty(), Seq::empty())
}

/// `s` is one or more decimal digit bytes.
pub open spec fn is_digits(s: Seq<u8>) -> bool {
    s.len() > 0 && forall|i: int| 0 <= i < s.len() ==> 48 <= #[trigger] s[i] <= 57
}

/// Numeric value of a sequence of decimal digit bytes.
pub open spec fn dec_val(s: Seq<u8>) -> nat
    decreases s.len(),
{
    if s.len() == 0 {
        0
    } else {
        (dec_val(s.drop_last()) * 10 + (s.last() - 48)) as nat
    }
}

/// `s` denotes a number that fits in 64 bits.
pub open spec fn is_u64_field(s: Seq<u8>) -> bool {
    is_digits(s) && dec_val(s) <= u64::MAX
}

/// What one row's fields mean: an entry, or the reason they are refused.
pub open spec fn row_parse(fields: Seq<Seq<u8>>) -> Result<EntryModel, RowError> {
    if fields.len() < 3 || (fields.len() - 3) % 2 != 0 || fields[0].len() == 0 {
        Err(RowError::MissingField)
    } else if !(forall|i: int| 1 <= i < fields.len() ==> is_u64_field(#[trigger] fields[i])) {
        Err(RowError::BadNumber)
    } else {
        let e = EntryModel {
            path: fields[0],
            size: dec_val(fields[1]) as u64,
            digest: dec_val(fields[2]) as u64,
            chunks: Seq::new(((fields.len() - 3) / 2) as nat, |j: int| Chunk {
                length: dec_val(fields[3 + 2 * j]) as u64,
                digest: dec_val(fields[4 + 2 * j]) as u64,
            }),
        };
        if chunk_sum(e.chunks) != e.size {
            Err(RowError::LengthMismatch)
        } else {
            Ok(e)
        }
    }
}

/// What the rows from index `i` on mean: the entries of every nonblank row
/// in order, or the first row error.
pub open spec fn rows_parse(rows: Seq<Seq<u8>>, i: int) -> Result<
    Seq<EntryModel>,
    ManifestParseError,
>
    decreases rows.len() - i,
{
    if i < 0 || i >= rows.len() {
        Ok(Seq::empty())
    } else if rows[i].len() == 0 {
        rows_parse(rows, i + 1)
    } else {
        match row_parse(split_spec(rows[i], FIELD_SEP)) {
            Err(kind) => Err(ManifestParseError { row: i as usize, kind }),
            Ok(e) => match rows_parse(rows, i + 1) {
                Err(err) => Err(err),
                Ok(rest) => Ok(seq![e] + rest),
            },
        }
    }
}

/// What a whole manifest document means.
pub open spec fn parse_manifest_spec(text: Seq<u8>) -> Result<
    Seq<EntryModel>,
    ManifestParseError,
> {
    rows_parse(split_spec(text, ROW_SEP), 0)
}

/// Split `s` on `sep`, as `split_spec` describes.
pub fn split_bytes(s: &[u8], sep: u8) -> (r: Vec<Vec<u8>>)
    ensures
        r@.map_values(|f: Vec<u8>| f@) == split_spec(s@, sep),
{
    let mut acc: Vec<Vec<u8>> = Vec::new();
    let mut cur: Vec<u8> = Vec::new();
    let mut i: usize = 0;
    assert(s@.skip(0) =~= s@);
    assert(acc@.map_values(|f: Vec<u8>| f@) =~= Seq::<Seq<u8>>::empty());
    while i < s.len()
        invariant
            i <= s.len(),
            split_from(s@.skip(i as int), sep, cur@, acc@.map_values(|f: Vec<u8>| f@))
                == split_spec(s@, sep),
        decreases s.len() - i,
    {
        let ghost rest = s@.skip(i as int);
        let ghost accs = acc@.map_values(|f: Vec<u8>| f@);
        assert(rest[0] == s@[i as int]);
        assert(rest.drop_first() =~= s@.skip(i as int + 1));
        if s[i] == sep {
            let done = cur;
            cur = Vec::new();
            acc.push(done);
            assert(acc@.map_values(|f: Vec<u8>| f@) =~= accs.push(done@));
        } else {
            let b = s[i];
            cur.push(b);
        }
        i += 1;
    }
    assert(s@.skip(s.len() as int) =~= Seq::<u8>::empty());
    let ghost accs = acc@.map_values(|f: Vec<u8>| f@);
    acc.push(cur);
    assert(acc@.map_values(|f: Vec<u8>| f@) =~= accs.push(cur@));
    acc
}

/// Over digits, the value of a prefix never exceeds the whole string's value.
proof fn lemma_dec_val_prefix_le(s: Seq<u8>, i: int)
    requires
        0 <= i <= s.len(),
        is_digits(s),
    ensures
        dec_val(s.take(i)) <= dec_val(s),
    decreases s.len() - i,
{
    if i < s.len() {
        assert(s.take(i + 1).drop_last() =~= s.take(i));
        assert(s.take(i + 1).last() == s[i]);
        assert(dec_val(s.take(i + 1)) >= dec_val(s.take(i)));
        lemma_dec_val_prefix_le(s, i + 1);
    } else {
        assert(s.take(i) =~= s);
    }
}

/// Parse a decimal 64-bit number: `Some` exactly when the field is all
/// digits, nonempty, and its value fits in 64 bits.
pub fn parse_u64(field: &[u8]) -> (r: Option<u64>)
    ensures
        r is Some <==> is_u64_field(field@),
        r matches Some(v) ==> v == dec_val(field@),
{
    if field.len() == 0 {
        return None;
    }
    let mut acc: u64 = 0;
    let mut i: usize = 0;
    while i < field.len()
        invariant
            i <= field.len(),
            field@.len() > 0,
            acc == dec_val(field@.take(i as int)),
            forall|j: int| 0 <= j < i ==> 48 <= #[trigger] field@[j] <= 57,
        decreases field.len() - i,
    {
        let b = field[i];
        if b < 48 || b > 57 {
            assert(!is_digits(field@));
            return None;
        }
        let d = b - 48;
        proof {
            assert(field@.take(i as int + 1).drop_last() =~= field@.take(i as int));
            assert(field@.take(i as int + 1).last() == field@[i as int]);
        }
        let shifted = match acc.checked_mul(10) {
            Some(s) => s,
            None => {
                proof {
                    if is_digits(field@) {
                        lemma_dec_val_prefix_le(field@, i as int + 1);
                    }
                }
                return None;
            },
        };
        acc = match shifted.checked_add(d as u64) {
            Some(s) => s,
            None => {
                proof {
                    if is_digits(field@) {
                        lemma_dec_val_prefix_le(field@, i as int + 1);
                    }
                }
                return None;
            },
        };
        i += 1;
    }
    assert(field@.take(field.len() as int) =~= field@);
    Some(acc)
}

/// Parse one row's fields into an entry, as `row_parse` describes.
#[verifier::loop_isolation(false)]
fn parse_row(fields: &Vec<Vec<u8>>) -> (r: Result<ManifestEntry, RowError>)
    ensures
        ({
            let models = fields@.map_values(|f: Vec<u8>| f@);
            &&& (r matches Ok(e) ==> row_parse(models) == Ok::<EntryModel, RowError>(e@))
            &&& (r matches Err(k) ==> row_parse(models) == Err::<EntryModel, RowError>(k))
        }),
{
    let ghost models = fields@.map_values(|f: Vec<u8>| f@);
    if fields.len() < 3 {
        return Err(RowError::MissingField);
    }
    assert(models[0] == fields@[0]@);
    assert(models[1] == fields@[1]@);
    assert(models[2] == fields@[2]@);
    if (fields.len() - 3) % 2 != 0 || fields[0].len() == 0 {
        return Err(RowError::MissingField);
    }
    let size = match parse_u64(fields[1].as_slice()) {
        Some(v) => v,
        None => {
            assert(!is_u64_field(models[1]));
            return Err(RowError::BadNumber);
        },
    };
    let digest = match parse_u64(fields[2].as_slice()) {
        Some(v) => v,
        None => {
            assert(!is_u64_field(models[2]));
            return Err(RowError::BadNumber);
        },
    };
    let n_fields = fields.len();
    let n_chunks = (n_fields - 3) / 2;
    proof {
        vstd::arithmetic::div_mod::lemma_fundamental_div_mod(fields@.len() - 3, 2);
    }
    assert(3 + 2 * (n_chunks as int) == n_fields as int);
    let mut chunks: Vec<Chunk> = Vec::new();
    let ghost chunk_model = Seq::new(n_chunks as nat, |j: int| Chunk {
        length: dec_val(models[3 + 2 * j]) as u64,
        digest: dec_val(models[4 + 2 * j]) as u64,
    });
    let mut j: usize = 0;
    while j < n_chunks
        invariant
            j <= n_chunks,
            n_fields == fields@.len(),
            3 + 2 * (n_chunks as int) == n_fields as int,
            models == fields@.map_values(|f: Vec<u8>| f@),
            chunk_model == Seq::new(n_chunks as nat, |k: int| Chunk {
                length: dec_val(models[3 + 2 * k]) as u64,
                digest: dec_val(models[4 + 2 * k]) as u64,
            }),
            chunks@ =~= chunk_model.take(j as int),
            forall|k: int| 3 <= k < 3 + 2 * j ==> is_u64_field(#[trigger] models[k]),
        decreases n_chunks - j,
    {
        assert(models[3 + 2 * (j as int)] == fields@[3 + 2 * (j as int)]@);
        assert(models[4 + 2 * (j as int)] == fields@[4 + 2 * (j as int)]@);
        let length = match parse_u64(fields[3 + 2 * j].as_slice()) {
            Some(v) => v,
            None => {
                assert(!is_u64_field(models[3 + 2 * (j as int)]));
                return Err(RowError::BadNumber);
            },
        };
        let cdigest = match parse_u64(fields[4 + 2 * j].as_slice()) {
            Some(v) => v,
            None => {
                assert(!is_u64_field(models[4 + 2 * (j as int)]));
                return Err(RowError::BadNumber);
            },
        };
        chunks.push(Chunk { length, digest: cdigest });
        assert(chunks@ =~= chunk_model.take(j as int + 1));
        j += 1;
    }
    assert(chunk_model.take(n_chunks as int) =~= chunk_model);
    assert(chunks@ == chunk_model);
    assert(forall|i: int| 1 <= i < models.len() ==> is_u64_field(#[trigger] models[i])) by {
        assert(models[1] == fields@[1]@);
        assert(models[2] == fields@[2]@);
        assert(forall|i: int| 3 <= i < models.len()
            ==> is_u64_field(#[trigger] models[i]));
    };
    let mut total: u128 = 0;
    let mut k: usize = 0;
    while k < chunks.len()
        invariant
            k <= chunks.len(),
            chunks@.len() <= 0x7fff_ffff_ffff_ffff,
            total == chunk_sum(chunks@.take(k as int)),
            total <= k * (u64::MAX as int),
        decreases chunks.len() - k,
    {
        proof {
            assert(chunks@.take(k as int + 1).drop_last() =~= chunks@.take(k as int));
            assert(chunks@.take(k as int + 1).last() == chunks@[k as int]);
        }
        total = total + (chunks[k].length as u128);
        k += 1;
    }
    assert(chunks@.take(chunks.len() as int) =~= chunks@);
    let entry = ManifestEntry { path: fields[0].clone(), size, digest, chunks };
    if total != size as u128 {
        return Err(RowError::LengthMismatch);
    }
    proof {
        assert(models[0] == fields@[0]@);
        assert(models[1] == fields@[1]@);
        assert(models[2] == fields@[2]@);
        assert(entry@ =~= row_parse(models).unwrap());
    }
    Ok(entry)
}

/// Extending an `Ok` prefix of parsed entries by what the remaining rows mean.
pub open spec fn rows_parse_from(
    done: Seq<EntryModel>,
    rows: Seq<Seq<u8>>,
    i: int,
) -> Result<Seq<EntryModel>, ManifestParseError> {
    match rows_parse(rows, i) {
        Ok(rest) => Ok(done + rest),
        Err(err) => Err(err),
    }
}

/// Parse a manifest document: the entries of every nonblank row in
/// declaration order, or the first offending row and the reason, exactly
/// as `parse_manifest_spec` describes. A parsed manifest is well formed.
#[verifier::loop_isolation(false)]
pub fn parse_manifest(text: &[u8]) -> (r: Result<Manifest, ManifestParseError>)
    ensures
        (r matches Ok(m) ==> parse_manifest_spec(text@)
            == Ok::<Seq<EntryModel>, ManifestParseError>(m@)),
        (r matches Err(e) ==> parse_manifest_spec(text@)
            == Err::<Seq<EntryModel>, ManifestParseError>(e)),
        r matches Ok(m) ==> manifest_wf(m@),
{
    let rows = split_bytes(text, ROW_SEP);
    let ghost row_models = rows@.map_values(|f: Vec<u8>| f@);
    let mut entries: Vec<ManifestEntry> = Vec::new();
    let mut i: usize = 0;
    proof {
        let done0 = entries@.map_values(|e: ManifestEntry| e@);
        assert(done0 =~= Seq::<EntryModel>::empty());
        match rows_parse(row_models, 0) {
            Ok(rest) => {
                assert(done0 + rest =~= rest);
            },
            Err(_) => {},
        }
    }
    while i < rows.len()
        invariant
            i <= rows.len(),
            row_models == rows@.map_values(|f: Vec<u8>| f@),
            row_models == split_spec(text@, ROW_SEP),
            rows_parse(row_models, 0) == rows_parse_from(
                entries@.map_values(|e: ManifestEntry| e@),
                row_models,
                i as int,
            ),
            manifest_wf(entries@.map_values(|e: ManifestEntry| e@)),
        decreases rows.len() - i,
    {
        let ghost done = entries@.map_values(|e: ManifestEntry| e@);
        assert(row_models[i as int] == rows@[i as int]@);
        if rows[i].len() > 0 {
            let fields = split_bytes(rows[i].as_slice(), FIELD_SEP);
            assert(fields@.map_values(|f: Vec<u8>| f@)
                == split_spec(row_models[i as int], FIELD_SEP));
            match parse_row(&fields) {
                Ok(entry) => {
                    proof {
                        lemma_row_ok_wf(fields@.map_values(|f: Vec<u8>| f@));
                        match rows_parse(row_models, i as int + 1) {
                            Ok(rest) => {
                                assert(done + (seq![entry@] + rest)
                                    =~= done.push(entry@) + rest);
                            },
                            Err(_) => {},
                        }
                    }
                    entries.push(entry);
                    assert(entries@.map_values(|e: ManifestEntry| e@)
                        =~= done.push(entry@));
                },
                Err(kind) => {
                    proof {
                        assert(rows_parse(row_models, i as int)
                            == Err::<Seq<EntryModel>, ManifestParseError>(
                            ManifestParseError { row: i, kind },
                        ));
                        assert(row_models == split_spec(text@, ROW_SEP));
                    }
                    return Err(ManifestParseError { row: i, kind });
                },
            }
        }
        i += 1;
    }
    proof {
        let done = entries@.map_values(|e: ManifestEntry| e@);
        assert(rows_parse(row_models, rows@.len() as int)
            == Ok::<Seq<EntryModel>, ManifestParseError>(Seq::empty()));
        assert(done + Seq::<EntryModel>::empty() =~= done);
    }
    Ok(Manifest { entries })
}

/// A row that parses is well formed: its chunk lengths sum to its size.
proof fn lemma_row_ok_wf(fields: Seq<Seq<u8>>)
    ensures
        row_parse(fields) matches Ok(e) ==> entry_wf(e),
{
}

/// Every entry of a manifest that parses satisfies the length invariant:
/// the sum of its chunk lengths equals its declared file length.
pub proof fn lemma_parsed_manifest_well_formed(text: Seq<u8>)
    ensures
        parse_manifest_spec(text) matches Ok(es) ==> manifest_wf(es),
{
    lemma_rows_parse_wf(split_spec(text, ROW_SEP), 0);
}

/// Entries that come out of row parsing are always well formed.
proof fn lemma_rows_parse_wf(rows: Seq<Seq<u8>>, i: int)
    ensures
        rows_parse(rows, i) matches Ok(es) ==> manifest_wf(es),
    decreases rows.len() - i,
{
    if 0 <= i < rows.len() {
        lemma_rows_parse_wf(rows, i + 1);
        if rows[i].len() > 0 {
            match row_parse(split_spec(rows[i], FIELD_SEP)) {
                Ok(e) => {
                    match rows_parse(rows, i + 1) {
                        Ok(rest) => {
                            assert(forall|k: int| 0 <= k < (seq![e] + rest).len()
                                ==> entry_wf(#[trigger] (seq![e] + rest)[k])) by {
                                assert(entry_wf(e));
                                assert(forall|k: int| 0 <= k < rest.len()
                                    ==> entry_wf(#[trigger] rest[k]));
                            };
                        },
                        Err(_) => {},
                    }
                },
                Err(_) => {},
            }
        }
    }
}

} // verus!
