//! Object-storage upload planning: deterministic object keys, the choice
//! between a single request and a chunked multipart transfer, and the
//! per-file progress bookkeeping of directory and batch uploads.
//!
//! The plans computed here are executed by the surrounding application;
//! the key scheme is the on-the-wire contract with the storage backend and
//! must stay byte-for-byte stable.

use vstd::prelude::*;
use vstd::string::StrSliceExecFns;
use vstd::string::StringExecFns;
use crate::file_utils::{get_extension, spec_extension, spec_has_parent, spec_parent,
    get_parent_directory};
use crate::model::TransferProgress;

verus! {

/// Files at or above this size are sent as a chunked multipart upload,
/// in parts of this size (the backend's part limit): 16 MiB.
pub const MULTIPART_PART_SIZE: u64 = 16 * 1024 * 1024;

/// The sum of a sequence of part sizes.
pub open spec fn spec_u64_sum(s: Seq<u64>) -> int
    decreases s.len(),
{
    if s.len() == 0 {
        0
    } else {
        spec_u64_sum(s.drop_last()) + s.last()
    }
}

/// How one file travels: one request below the part size, else parts of
/// the part size with a final, possibly smaller, remainder part.
pub struct TransferPlan {
    pub multipart: bool,
    pub part_sizes: Vec<u64>,
}

/// Plans the transfer of a file of `file_size` bytes: a single request
/// below the threshold; at or above it, `ceil(file_size / part size)`
/// parts whose sizes add up exactly to the file's size.
pub fn plan_transfer(file_size: u64) -> (r: TransferPlan)
    ensures
        r.multipart == (file_size >= MULTIPART_PART_SIZE),
        spec_u64_sum(r.part_sizes@) == file_size,
        !r.multipart ==> r.part_sizes@ == seq![file_size],
        r.multipart ==> {
            &&& r.part_sizes@.len() == (file_size + MULTIPART_PART_SIZE - 1) as int / (
            MULTIPART_PART_SIZE as int)
            &&& forall|i: int|
                0 <= i < r.part_sizes@.len() - 1 ==> r.part_sizes@[i] == MULTIPART_PART_SIZE
            &&& 0 < r.part_sizes@.last() <= MULTIPART_PART_SIZE
        },
{
    if file_size < MULTIPART_PART_SIZE {
        let mut parts: Vec<u64> = Vec::new();
        parts.push(file_size);
        assert(parts@.drop_last() =~= Seq::<u64>::empty());
        assert(spec_u64_sum(Seq::<u64>::empty()) == 0);
        assert(spec_u64_sum(parts@) == file_size);
        assert(parts@ =~= seq![file_size]);
        return TransferPlan { multipart: false, part_sizes: parts };
    }
    let n_full = file_size / MULTIPART_PART_SIZE;
    let rem = file_size % MULTIPART_PART_SIZE;
    let mut parts: Vec<u64> = Vec::new();
    let mut k: u64 = 0;
    while k < n_full
        invariant
            k <= n_full,
            parts@.len() == k,
            forall|i: int| 0 <= i < parts@.len() ==> parts@[i] == MULTIPART_PART_SIZE,
            spec_u64_sum(parts@) == (MULTIPART_PART_SIZE as int) * (k as int),
        decreases n_full - k,
    {
        let ghost prev = parts@;
        parts.push(MULTIPART_PART_SIZE);
        proof {
            assert(parts@.drop_last() =~= prev);
            assert((MULTIPART_PART_SIZE as int) * (k as int + 1) == (MULTIPART_PART_SIZE as int) * (
            k as int) + MULTIPART_PART_SIZE) by (nonlinear_arith);
        }
        k = k + 1;
    }
    if rem > 0 {
        let ghost prev = parts@;
        parts.push(rem);
        proof {
            assert(parts@.drop_last() =~= prev);
        }
    }
    proof {
        let p = MULTIPART_PART_SIZE as int;
        let fs = file_size as int;
        let nf = n_full as int;
        let rm = rem as int;
        vstd::arithmetic::div_mod::lemma_fundamental_div_mod(fs, p);
        assert(fs == p * nf + rm);
        if rem == 0 {
            vstd::arithmetic::div_mod::lemma_div_multiples_vanish_fancy(nf, p - 1, p);
            assert((p * nf + (p - 1)) / p == nf);
            assert((fs + p - 1) / p == nf);
        } else {
            vstd::arithmetic::div_mod::lemma_div_multiples_vanish_fancy(nf + 1, rm - 1, p);
            assert((p * (nf + 1) + (rm - 1)) / p == nf + 1);
            assert(p * (nf + 1) + (rm - 1) == p * nf + rm + p - 1) by (nonlinear_arith);
            assert((fs + p - 1) / p == nf + 1);
        }
    }
    TransferPlan { multipart: true, part_sizes: parts }
}

/// The character of one decimal digit.
pub open spec fn spec_digit_char(d: int) -> char {
    if d == 0 {
        '0'
    } else if d == 1 {
        '1'
    } else if d == 2 {
        '2'
    } else if d == 3 {
        '3'
    } else if d == 4 {
        '4'
    } else if d == 5 {
        '5'
    } else if d == 6 {
        '6'
    } else if d == 7 {
        '7'
    } else if d == 8 {
        '8'
    } else {
        '9'
    }
}

/// The decimal rendering of a non-negative number, most significant
/// digit first.
pub open spec fn spec_udec(n: int) -> Seq<char>
    decreases n,
{
    if n < 10 {
        seq![spec_digit_char(n)]
    } else {
        spec_udec(n / 10).push(spec_digit_char(n % 10))
    }
}

/// The string of one decimal digit.
fn digit_str(d: usize) -> (r: &'static str)
    requires
        d < 10,
    ensures
        r@ == seq![spec_digit_char(d as int)],
{
    proof {
        reveal_strlit("0");
        reveal_strlit("1");
        reveal_strlit("2");
        reveal_strlit("3");
        reveal_strlit("4");
        reveal_strlit("5");
        reveal_strlit("6");
        reveal_strlit("7");
        reveal_strlit("8");
        reveal_strlit("9");
    }
    if d == 0 {
        "0"
    } else if d == 1 {
        "1"
    } else if d == 2 {
        "2"
    } else if d == 3 {
        "3"
    } else if d == 4 {
        "4"
    } else if d == 5 {
        "5"
    } else if d == 6 {
        "6"
    } else if d == 7 {
        "7"
    } else if d == 8 {
        "8"
    } else {
        "9"
    }
}

/// The decimal rendering of a number.
pub fn format_usize(n: usize) -> (r: String)
    ensures
        r@ == spec_udec(n as int),
    decreases n,
{
    if n < 10 {
        String::from_str(digit_str(n))
    } else {
        let r = format_usize(n / 10).concat(digit_str(n % 10));
        proof {
            assert(r@ =~= spec_udec(n as int / 10).push(spec_digit_char(n as int % 10)));
        }
        r
    }
}

/// The decimal rendering of a page number, left-padded with zeros to at
/// least five characters.
pub open spec fn spec_pad5(n: int) -> Seq<char> {
    if spec_udec(n).len() >= 5 {
        spec_udec(n)
    } else {
        Seq::new((5 - spec_udec(n).len()) as nat, |i: int| '0') + spec_udec(n)
    }
}

/// Zero-pads a page number to at least five digits.
pub fn pad5(n: usize) -> (r: String)
    ensures
        r@ == spec_pad5(n as int),
{
    proof {
        reveal_strlit("0");
    }
    let digits = format_usize(n);
    let len = digits.as_str().unicode_len();
    if len >= 5 {
        return digits;
    }
    let mut r = String::new();
    let pad = 5 - len;
    let mut i: usize = 0;
    while i < pad
        invariant
            i <= pad,
            pad == 5 - digits@.len(),
            r@ =~= Seq::new(i as nat, |k: int| '0'),
            "0"@ == seq!['0'],
        decreases pad - i,
    {
        r.append("0");
        proof {
            assert(r@ =~= Seq::new(i as nat + 1, |k: int| '0'));
        }
        i = i + 1;
    }
    r.append(digits.as_str());
    proof {
        assert(r@ =~= spec_pad5(n as int));
    }
    r
}

/// The object key of one page of a directory upload:
/// `<material type>/<object id>/<object id>_<page, zero-padded>.<extension>`.
pub open spec fn spec_object_key(
    material_type: Seq<char>,
    object_id: Seq<char>,
    page_nr: int,
    extension: Seq<char>,
) -> Seq<char> {
    material_type + "/"@ + object_id + "/"@ + object_id + "_"@ + spec_pad5(page_nr) + "."@
        + extension
}

/// Builds the object key of one page of a directory upload.
pub fn build_object_key(
    material_type: &str,
    object_id: &str,
    page_nr: usize,
    extension: &str,
) -> (r: String)
    ensures
        r@ == spec_object_key(material_type@, object_id@, page_nr as int, extension@),
{
    let page = pad5(page_nr);
    String::from_str(material_type).concat("/").concat(object_id).concat("/").concat(
        object_id,
    ).concat("_").concat(page.as_str()).concat(".").concat(extension)
}

/// The role of a file within a logical object's representations.
#[derive(Debug, Clone, Copy, PartialEq, Eq, Structural)]
pub enum RepresentationRole {
    Primary,
    Access,
}

/// The key segment naming a representation role.
pub open spec fn spec_role_segment(role: RepresentationRole) -> Seq<char> {
    match role {
        RepresentationRole::Primary => "primary"@,
        RepresentationRole::Access => "access"@,
    }
}

/// The object key of one page of a batch upload with a representation
/// role: `<material type>/<object id>/representations/<role>/<object
/// id>_<page, zero-padded>.<extension>`.
pub open spec fn spec_representation_key(
    material_type: Seq<char>,
    object_id: Seq<char>,
    role: RepresentationRole,
    page_nr: int,
    extension: Seq<char>,
) -> Seq<char> {
    material_type + "/"@ + object_id + "/representations/"@ + spec_role_segment(role) + "/"@
        + object_id + "_"@ + spec_pad5(page_nr) + "."@ + extension
}

/// Builds the object key of one page of a batch upload.
pub fn build_representation_key(
    material_type: &str,
    object_id: &str,
    role: RepresentationRole,
    page_nr: usize,
    extension: &str,
) -> (r: String)
    ensures
        r@ == spec_representation_key(
            material_type@,
            object_id@,
            role,
            page_nr as int,
            extension@,
        ),
{
    let role_str: &str = match role {
        RepresentationRole::Primary => "primary",
        RepresentationRole::Access => "access",
    };
    let page = pad5(page_nr);
    String::from_str(material_type).concat("/").concat(object_id).concat(
        "/representations/",
    ).concat(role_str).concat("/").concat(object_id).concat("_").concat(page.as_str()).concat(
        ".",
    ).concat(extension)
}

/// One planned transfer: the file to read, the key to store it under,
/// and the progress event to emit once it is done.
#[derive(Debug, Clone)]
pub struct UploadJob {
    pub path: String,
    pub key: String,
    pub progress: TransferProgress,
}

/// Plans the upload of a directory's files, in the order given: page
/// numbers count from one, and each file's progress event carries the
/// directory and the listing's total. Fails, before anything is sent,
/// when a file has no extension.
pub fn plan_directory_upload(
    directory_path: &str,
    file_paths: &Vec<String>,
    object_id: &str,
    material_type: &str,
) -> (r: Result<Vec<UploadJob>, String>)
    ensures
        match r {
            Ok(jobs) => {
                &&& jobs@.len() == file_paths@.len()
                &&& forall|k: int|
                    0 <= k < jobs@.len() ==> {
                        &&& spec_extension(#[trigger] file_paths@[k]@) is Some
                        &&& jobs@[k].path@ == file_paths@[k]@
                        &&& jobs@[k].key@ == spec_object_key(
                            material_type@,
                            object_id@,
                            k + 1,
                            spec_extension(file_paths@[k]@)->Some_0,
                        )
                        &&& jobs@[k].progress.directory@ == directory_path@
                        &&& jobs@[k].progress.page_nr == k + 1
                        &&& jobs@[k].progress.total_pages == file_paths@.len()
                    }
            },
            Err(m) => {
                &&& exists|k: int|
                    0 <= k < file_paths@.len() && spec_extension(#[trigger] file_paths@[k]@)
                        is None
                &&& m@ == "Missing file extension"@
            },
        },
        (forall|k: int|
            0 <= k < file_paths@.len() ==> spec_extension(#[trigger] file_paths@[k]@) is Some)
            ==> r is Ok,
{
    let total = file_paths.len();
    let mut jobs: Vec<UploadJob> = Vec::new();
    let mut i: usize = 0;
    while i < total
        invariant
            total == file_paths@.len(),
            i <= total,
            jobs@.len() == i,
            forall|k: int|
                0 <= k < i ==> {
                    &&& spec_extension(#[trigger] file_paths@[k]@) is Some
                    &&& jobs@[k].path@ == file_paths@[k]@
                    &&& jobs@[k].key@ == spec_object_key(
                        material_type@,
                        object_id@,
                        k + 1,
                        spec_extension(file_paths@[k]@)->Some_0,
                    )
                    &&& jobs@[k].progress.directory@ == directory_path@
                    &&& jobs@[k].progress.page_nr == k + 1
                    &&& jobs@[k].progress.total_pages == file_paths@.len()
                },
        decreases total - i,
    {
        let path = &file_paths[i];
        let extension = match get_extension(path.as_str()) {
            Some(e) => e,
            None => {
                return Err(String::from_str("Missing file extension"));
            },
        };
        let key = build_object_key(material_type, object_id, i + 1, extension.as_str());
        let progress = TransferProgress {
            directory: String::from_str(directory_path),
            page_nr: i + 1,
            total_pages: total,
        };
        jobs.push(UploadJob { path: path.clone(), key, progress });
        i = i + 1;
    }
    Ok(jobs)
}

/// The extension a valid upload path is known to have.
pub open spec fn spec_ext_of(p: Seq<char>) -> Seq<char> {
    spec_extension(p)->Some_0
}

/// The parent directory named in a progress event: empty when the path
/// has none.
pub open spec fn spec_parent_or_empty(p: Seq<char>) -> Seq<char> {
    if spec_has_parent(p) {
        spec_parent(p)
    } else {
        Seq::empty()
    }
}

/// The files of one logical object in a batch upload, split by
/// representation role.
#[derive(Debug, Clone)]
pub struct BatchGroup {
    pub object_id: String,
    pub primary: Vec<String>,
    pub access: Vec<String>,
}

/// The `(key, path)` pairs of one role's files, pages counted from one.
pub open spec fn spec_role_pairs(
    mt: Seq<char>,
    oid: Seq<char>,
    files: Seq<String>,
    role: RepresentationRole,
) -> Seq<(Seq<char>, Seq<char>)> {
    Seq::new(
        files.len(),
        |i: int|
            (spec_representation_key(mt, oid, role, i + 1, spec_ext_of(files[i]@)), files[i]@),
    )
}

/// The `(key, path)` pairs of one group: primary files first, then
/// access files, page numbering restarting with each role.
pub open spec fn spec_group_pairs(mt: Seq<char>, g: BatchGroup) -> Seq<(Seq<char>, Seq<char>)> {
    spec_role_pairs(mt, g.object_id@, g.primary@, RepresentationRole::Primary) + spec_role_pairs(
        mt,
        g.object_id@,
        g.access@,
        RepresentationRole::Access,
    )
}

/// The `(key, path)` pairs of a whole batch, in group order.
pub open spec fn spec_batch_pairs(mt: Seq<char>, groups: Seq<BatchGroup>) -> Seq<
    (Seq<char>, Seq<char>),
>
    decreases groups.len(),
{
    if groups.len() == 0 {
        Seq::empty()
    } else {
        spec_batch_pairs(mt, groups.drop_last()) + spec_group_pairs(mt, groups.last())
    }
}

/// How many files a batch holds in all.
pub open spec fn spec_batch_total(groups: Seq<BatchGroup>) -> int
    decreases groups.len(),
{
    if groups.len() == 0 {
        0
    } else {
        spec_batch_total(groups.drop_last()) + groups.last().primary@.len()
            + groups.last().access@.len()
    }
}

/// Every file of the group carries an extension.
pub open spec fn spec_group_valid(g: BatchGroup) -> bool {
    &&& forall|j: int|
        0 <= j < g.primary@.len() ==> spec_extension(#[trigger] g.primary@[j]@) is Some
    &&& forall|j: int| 0 <= j < g.access@.len() ==> spec_extension(#[trigger] g.access@[j]@) is Some
}

/// Every file of the batch carries an extension.
pub open spec fn spec_batch_valid(groups: Seq<BatchGroup>) -> bool {
    forall|i: int| 0 <= i < groups.len() ==> spec_group_valid(#[trigger] groups[i])
}

/// A batch never holds a negative number of files.
proof fn lemma_batch_total_nonneg(groups: Seq<BatchGroup>)
    ensures
        spec_batch_total(groups) >= 0,
    decreases groups.len(),
{
    if groups.len() > 0 {
        lemma_batch_total_nonneg(groups.drop_last());
    }
}

/// A prefix of a batch holds at most as many files as the whole batch.
proof fn lemma_batch_total_prefix(groups: Seq<BatchGroup>, i: int)
    requires
        0 <= i <= groups.len(),
    ensures
        spec_batch_total(groups.take(i)) <= spec_batch_total(groups),
    decreases groups.len() - i,
{
    if i < groups.len() {
        lemma_batch_total_prefix(groups, i + 1);
        assert(groups.take(i + 1).drop_last() =~= groups.take(i));
    } else {
        assert(groups.take(i) =~= groups);
    }
}

/// The parent directory of a path, or the empty string when it has none.
fn parent_or_empty(path: &str) -> (r: String)
    ensures
        r@ == spec_parent_or_empty(path@),
{
    match get_parent_directory(path) {
        Ok(p) => p,
        Err(_) => String::new(),
    }
}

/// Plans a batch upload: each group's primary files, then its access
/// files, each role's pages counted from one; the k-th file of the whole
/// batch carries progress `k` of the batch's total. Fails, before
/// anything is sent, when a file has no extension.
pub fn plan_batch_upload(groups: &Vec<BatchGroup>, material_type: &str) -> (r: Result<
    Vec<UploadJob>,
    String,
>)
    requires
        spec_batch_total(groups@) <= usize::MAX,
    ensures
        match r {
            Ok(jobs) => {
                &&& jobs@.len() == spec_batch_total(groups@)
                &&& jobs@.map_values(|j: UploadJob| (j.key@, j.path@)) == spec_batch_pairs(
                    material_type@,
                    groups@,
                )
                &&& forall|k: int|
                    0 <= k < jobs@.len() ==> {
                        &&& (#[trigger] jobs@[k]).progress.page_nr == k + 1
                        &&& jobs@[k].progress.total_pages == spec_batch_total(groups@)
                        &&& jobs@[k].progress.directory@ == spec_parent_or_empty(jobs@[k].path@)
                    }
            },
            Err(m) => !spec_batch_valid(groups@) && m@ == "Missing file extension"@,
        },
        spec_batch_valid(groups@) ==> r is Ok,
{
    let n_groups = groups.len();
    let mut total: usize = 0;
    let mut g: usize = 0;
    while g < n_groups
        invariant
            n_groups == groups@.len(),
            g <= n_groups,
            total == spec_batch_total(groups@.take(g as int)),
            spec_batch_total(groups@) <= usize::MAX,
        decreases n_groups - g,
    {
        proof {
            assert(groups@.take(g as int + 1).drop_last() =~= groups@.take(g as int));
            lemma_batch_total_prefix(groups@, g as int + 1);
        }
        total = total + groups[g].primary.len();
        total = total + groups[g].access.len();
        g = g + 1;
    }
    proof {
        assert(groups@.take(n_groups as int) =~= groups@);
    }
    let ghost pair_of = |j: UploadJob| (j.key@, j.path@);
    let mut jobs: Vec<UploadJob> = Vec::new();
    let mut gi: usize = 0;
    while gi < n_groups
        invariant
            n_groups == groups@.len(),
            gi <= n_groups,
            total == spec_batch_total(groups@),
            jobs@.len() == spec_batch_total(groups@.take(gi as int)),
            jobs@.map_values(|j: UploadJob| (j.key@, j.path@)) == spec_batch_pairs(
                material_type@,
                groups@.take(gi as int),
            ),
            forall|k: int|
                0 <= k < jobs@.len() ==> {
                    &&& (#[trigger] jobs@[k]).progress.page_nr == k + 1
                    &&& jobs@[k].progress.total_pages == total
                    &&& jobs@[k].progress.directory@ == spec_parent_or_empty(jobs@[k].path@)
                },
        decreases n_groups - gi,
    {
        let group = &groups[gi];
        let oid = group.object_id.as_str();
        let n_primary = group.primary.len();
        proof {
            assert(groups@.take(gi as int + 1).drop_last() =~= groups@.take(gi as int));
            assert(groups@.take(gi as int + 1).last() == groups@[gi as int]);
            lemma_batch_total_prefix(groups@, gi as int + 1);
        }
        let mut j: usize = 0;
        while j < n_primary
            invariant
                n_groups == groups@.len(),
                gi < n_groups,
                group == groups@[gi as int],
                oid@ == group.object_id@,
                n_primary == group.primary@.len(),
                j <= n_primary,
                total == spec_batch_total(groups@),
                jobs@.len() == spec_batch_total(groups@.take(gi as int)) + j,
                spec_batch_total(groups@.take(gi as int)) + group.primary@.len()
                    + group.access@.len() <= total,
                jobs@.map_values(|j: UploadJob| (j.key@, j.path@)) == spec_batch_pairs(
                    material_type@,
                    groups@.take(gi as int),
                ) + spec_role_pairs(
                    material_type@,
                    group.object_id@,
                    group.primary@.take(j as int),
                    RepresentationRole::Primary,
                ),
                forall|k: int|
                    0 <= k < jobs@.len() ==> {
                        &&& (#[trigger] jobs@[k]).progress.page_nr == k + 1
                        &&& jobs@[k].progress.total_pages == total
                        &&& jobs@[k].progress.directory@ == spec_parent_or_empty(jobs@[k].path@)
                    },
            decreases n_primary - j,
        {
            let path = &group.primary[j];
            let extension = match get_extension(path.as_str()) {
                Some(e) => e,
                None => {
                    return Err(String::from_str("Missing file extension"));
                },
            };
            let key = build_representation_key(
                material_type,
                oid,
                RepresentationRole::Primary,
                j + 1,
                extension.as_str(),
            );
            let progress = TransferProgress {
                directory: parent_or_empty(path.as_str()),
                page_nr: jobs.len() + 1,
                total_pages: total,
            };
            let ghost prev = jobs@;
            jobs.push(UploadJob { path: path.clone(), key, progress });
            proof {
                assert(jobs@.map_values(|j: UploadJob| (j.key@, j.path@)) =~= prev.map_values(
                    |j: UploadJob| (j.key@, j.path@),
                ).push((jobs@.last().key@, jobs@.last().path@)));
                assert(spec_role_pairs(
                    material_type@,
                    group.object_id@,
                    group.primary@.take(j as int + 1),
                    RepresentationRole::Primary,
                ) =~= spec_role_pairs(
                    material_type@,
                    group.object_id@,
                    group.primary@.take(j as int),
                    RepresentationRole::Primary,
                ).push((jobs@.last().key@, jobs@.last().path@)));
                assert(jobs@.map_values(|j: UploadJob| (j.key@, j.path@)) =~= spec_batch_pairs(
                    material_type@,
                    groups@.take(gi as int),
                ) + spec_role_pairs(
                    material_type@,
                    group.object_id@,
                    group.primary@.take(j as int + 1),
                    RepresentationRole::Primary,
                ));
            }
            j = j + 1;
        }
        proof {
            assert(group.primary@.take(n_primary as int) =~= group.primary@);
        }
        let n_access = group.access.len();
        let mut j2: usize = 0;
        while j2 < n_access
            invariant
                n_groups == groups@.len(),
                gi < n_groups,
                group == groups@[gi as int],
                oid@ == group.object_id@,
                n_access == group.access@.len(),
                j2 <= n_access,
                total == spec_batch_total(groups@),
                jobs@.len() == spec_batch_total(groups@.take(gi as int)) + group.primary@.len()
                    + j2,
                spec_batch_total(groups@.take(gi as int)) + group.primary@.len()
                    + group.access@.len() <= total,
                jobs@.map_values(|j: UploadJob| (j.key@, j.path@)) == spec_batch_pairs(
                    material_type@,
                    groups@.take(gi as int),
                ) + spec_role_pairs(
                    material_type@,
                    group.object_id@,
                    group.primary@,
                    RepresentationRole::Primary,
                ) + spec_role_pairs(
                    material_type@,
                    group.object_id@,
                    group.access@.take(j2 as int),
                    RepresentationRole::Access,
                ),
                forall|k: int|
                    0 <= k < jobs@.len() ==> {
                        &&& (#[trigger] jobs@[k]).progress.page_nr == k + 1
                        &&& jobs@[k].progress.total_pages == total
                        &&& jobs@[k].progress.directory@ == spec_parent_or_empty(jobs@[k].path@)
                    },
            decreases n_access - j2,
        {
            let path = &group.access[j2];
            let extension = match get_extension(path.as_str()) {
                Some(e) => e,
                None => {
                    return Err(String::from_str("Missing file extension"));
                },
            };
            let key = build_representation_key(
                material_type,
                oid,
                RepresentationRole::Access,
                j2 + 1,
                extension.as_str(),
            );
            let progress = TransferProgress {
                directory: parent_or_empty(path.as_str()),
                page_nr: jobs.len() + 1,
                total_pages: total,
            };
            let ghost prev = jobs@;
            jobs.push(UploadJob { path: path.clone(), key, progress });
            proof {
                assert(jobs@.map_values(|j: UploadJob| (j.key@, j.path@)) =~= prev.map_values(
                    |j: UploadJob| (j.key@, j.path@),
                ).push((jobs@.last().key@, jobs@.last().path@)));
                assert(spec_role_pairs(
                    material_type@,
                    group.object_id@,
                    group.access@.take(j2 as int + 1),
                    RepresentationRole::Access,
                ) =~= spec_role_pairs(
                    material_type@,
                    group.object_id@,
                    group.access@.take(j2 as int),
                    RepresentationRole::Access,
                ).push((jobs@.last().key@, jobs@.last().path@)));
                assert(jobs@.map_values(|j: UploadJob| (j.key@, j.path@)) =~= spec_batch_pairs(
                    material_type@,
                    groups@.take(gi as int),
                ) + spec_role_pairs(
                    material_type@,
                    group.object_id@,
                    group.primary@,
                    RepresentationRole::Primary,
                ) + spec_role_pairs(
                    material_type@,
                    group.object_id@,
                    group.access@.take(j2 as int + 1),
                    RepresentationRole::Access,
                ));
            }
            j2 = j2 + 1;
        }
        proof {
            assert(group.access@.take(n_access as int) =~= group.access@);
            assert(groups@.take(gi as int + 1).drop_last() =~= groups@.take(gi as int));
            assert(groups@.take(gi as int + 1).last() == groups@[gi as int]);
            assert(spec_batch_pairs(material_type@, groups@.take(gi as int + 1)) =~= spec_batch_pairs(
                material_type@,
                groups@.take(gi as int),
            ) + spec_group_pairs(material_type@, groups@[gi as int]));
            assert(jobs@.map_values(|j: UploadJob| (j.key@, j.path@)) =~= spec_batch_pairs(
                material_type@,
                groups@.take(gi as int + 1),
            ));
        }
        gi = gi + 1;
    }
    proof {
        assert(groups@.take(n_groups as int) =~= groups@);
    }
    Ok(jobs)
}

} // verus!
