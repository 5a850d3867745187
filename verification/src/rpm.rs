//! What `rpm -q --queryformat '%{nevra},%{buildtime} ' -f FILE...` prints,
//! read as the packages that own a component's files.
use crate::model::{opt_chars, ContentMetadata, Timestamp};
use crate::packages::{metadata_matches, PackageSet};
use crate::path::{chars_of, string_of};
use crate::text::{split_whitespace, trim_start, views, whitespace_tokens};
use vstd::prelude::*;
use vstd::utf8::{decode_utf8, valid_utf8};

verus! {

#[verifier::external_type_specification]
#[verifier::external_body]
pub struct ExUtf8Error(std::str::Utf8Error);

#[verifier::external_type_specification]
#[verifier::external_body]
pub struct ExParseError(chrono::format::ParseError);

/// The latest second, counted from 1970-01-01 00:00:00 UTC, that chrono's
/// `NaiveDateTime` holds: 262142-12-31 23:59:59.
pub open spec fn max_epoch_seconds() -> int {
    8210266876799
}

/// `c` is one of the ASCII digits.
pub open spec fn is_ascii_digit(c: char) -> bool {
    '0' <= c <= '9'
}

/// The number that the decimal digits `s` write.
pub open spec fn digits_value(s: Seq<char>) -> int
    decreases s.len(),
{
    if s.len() == 0 {
        0
    } else {
        digits_value(s.drop_last()) * 10 + ((s.last() as u32) - ('0' as u32))
    }
}

/// The time that chrono's `NaiveDateTime::parse_from_str(text, "%s")` reads
/// from `text`, as whole seconds since 1970-01-01 00:00:00 UTC and the
/// nanoseconds within the second: after any leading white space, one or more
/// ASCII digits and nothing else, writing a number of seconds that
/// `NaiveDateTime` can hold; `None` where chrono refuses the text.
pub open spec fn epoch_seconds_time(text: Seq<char>) -> Option<(i64, u32)> {
    let t = trim_start(text);
    if t.len() > 0 && (forall|i: int| 0 <= i < t.len() ==> is_ascii_digit(#[trigger] t[i]))
        && digits_value(t) <= max_epoch_seconds() {
        Some((digits_value(t) as i64, 0u32))
    } else {
        None
    }
}

/// `std::str::from_utf8`: the text that `bytes` encode, where they are valid UTF-8.
#[verifier::external_body]
fn str_from_utf8(bytes: &[u8]) -> (r: Result<&str, std::str::Utf8Error>)
    ensures
        r is Ok <==> valid_utf8(bytes@),
        r matches Ok(s) ==> s@ == decode_utf8(bytes@),
{
    std::str::from_utf8(bytes)
}

/// chrono's `NaiveDateTime::parse_from_str(text, "%s")`, the time given as
/// whole seconds and the nanoseconds within the second: it succeeds exactly on
/// the texts that `epoch_seconds_time` reads, with that time.
#[verifier::external_body]
fn parse_epoch_seconds(text: &str) -> (r: Result<Timestamp, chrono::format::ParseError>)
    ensures
        r is Ok <==> epoch_seconds_time(text@) is Some,
        r matches Ok(t) ==> epoch_seconds_time(text@) == Some((t.secs, t.nanos)),
{
    match chrono::NaiveDateTime::parse_from_str(text, "%s") {
        Ok(t) => Ok(Timestamp { secs: t.and_utc().timestamp(), nanos: t.and_utc().timestamp_subsec_nanos() }),
        Err(e) => Err(e),
    }
}

/// `k` is the position of the first `,` of `t`.
pub open spec fn is_first_comma(t: Seq<char>, k: int) -> bool {
    &&& 0 <= k < t.len()
    &&& t[k] == ','
    &&& forall|j: int| 0 <= j < k ==> t[j] != ','
}

/// `t` holds a `,`.
pub open spec fn has_comma(t: Seq<char>) -> bool {
    exists|k: int| 0 <= k < t.len() && t[k] == ','
}

/// The position of the first `,` of `t`.
pub open spec fn first_comma(t: Seq<char>) -> int {
    choose|k: int| is_first_comma(t, k)
}

/// The package name of a record `NAME,BUILDTIME`: what stands before its first `,`.
pub open spec fn record_name(t: Seq<char>) -> Seq<char> {
    if has_comma(t) {
        t.take(first_comma(t))
    } else {
        t
    }
}

/// The build time text of a record: what follows its first `,`, if it has one.
pub open spec fn record_stamp(t: Seq<char>) -> Option<Seq<char>> {
    if has_comma(t) {
        Some(t.skip(first_comma(t) + 1))
    } else {
        None
    }
}

/// The build time that a record gives, where its text is one that chrono reads.
pub open spec fn record_time(t: Seq<char>) -> Option<Timestamp> {
    match record_stamp(t) {
        Some(st) => match epoch_seconds_time(st) {
            Some(p) => Some(Timestamp { secs: p.0, nanos: p.1 }),
            None => None,
        },
        None => None,
    }
}

/// Every record gives a build time.
pub open spec fn all_records_timed(records: Seq<Seq<char>>) -> bool {
    forall|i: int| 0 <= i < records.len() ==> (#[trigger] record_time(records[i])) is Some
}

/// The packages that the records name, each with the build time of its last record.
pub open spec fn packages_of(records: Seq<Seq<char>>) -> Map<Seq<char>, Timestamp>
    decreases records.len(),
{
    if records.len() == 0 {
        Map::empty()
    } else {
        packages_of(records.drop_last()).insert(
            record_name(records.last()),
            record_time(records.last())->0,
        )
    }
}

/// The first record that gives no build time is the one at `k`.
pub open spec fn first_untimed(records: Seq<Seq<char>>, k: int) -> bool {
    &&& 0 <= k < records.len()
    &&& all_records_timed(records.take(k))
    &&& record_time(records[k]) is None
}

/// Records that name the same package give it the same build time.
pub open spec fn consistent_records(records: Seq<Seq<char>>) -> bool {
    forall|i: int, j: int|
        0 <= i < records.len() && 0 <= j < records.len() && record_name(records[i])
            == record_name(records[j]) ==> #[trigger] record_time(records[i]) == #[trigger] record_time(
            records[j],
        )
}

proof fn lemma_packages_of_content(records: Seq<Seq<char>>)
    requires
        consistent_records(records),
    ensures
        forall|n: Seq<char>|
            packages_of(records).dom().contains(n) <==> exists|i: int|
                0 <= i < records.len() && #[trigger] record_name(records[i]) == n,
        forall|i: int|
            0 <= i < records.len() ==> packages_of(records)[#[trigger] record_name(records[i])]
                == record_time(records[i])->0,
    decreases records.len(),
{
    if records.len() > 0 {
        let p = records.drop_last();
        assert(consistent_records(p)) by {
            assert forall|i: int, j: int|
                0 <= i < p.len() && 0 <= j < p.len() && record_name(p[i]) == record_name(p[j])
                implies #[trigger] record_time(p[i]) == #[trigger] record_time(p[j]) by {
                assert(p[i] == records[i] && p[j] == records[j]);
            }
        }
        lemma_packages_of_content(p);
        let last = records.len() - 1;
        assert forall|n: Seq<char>|
            packages_of(records).dom().contains(n) <==> exists|i: int|
                0 <= i < records.len() && #[trigger] record_name(records[i]) == n by {
            if packages_of(p).dom().contains(n) {
                let i = choose|i: int| 0 <= i < p.len() && #[trigger] record_name(p[i]) == n;
                assert(record_name(records[i]) == n);
            }
            if exists|i: int| 0 <= i < records.len() && #[trigger] record_name(records[i]) == n {
                let i = choose|i: int| 0 <= i < records.len() && #[trigger] record_name(records[i]) == n;
                if i < last {
                    assert(record_name(p[i]) == n);
                }
            }
        }
        assert forall|i: int| 0 <= i < records.len() implies packages_of(records)[#[trigger] record_name(
            records[i],
        )] == record_time(records[i])->0 by {
            if i < last && record_name(records[i]) != record_name(records[last]) {
                assert(p[i] == records[i]);
                assert(record_name(p[i]) == record_name(records[i]));
            } else if i < last {
                assert(record_time(records[i]) == record_time(records[last]));
            }
        }
    }
}

/// Where records that name the same package agree on its build time, the
/// packages that records name depend neither on their order nor on repeats:
/// records holding the same tokens name the same packages, with the same
/// build times, and so give the same metadata.
pub proof fn lemma_records_order_free(r1: Seq<Seq<char>>, r2: Seq<Seq<char>>)
    requires
        forall|t: Seq<char>| r1.contains(t) <==> r2.contains(t),
        consistent_records(r1),
    ensures
        consistent_records(r2),
        packages_of(r1) == packages_of(r2),
{
    assert forall|i: int, j: int|
        0 <= i < r2.len() && 0 <= j < r2.len() && record_name(r2[i]) == record_name(r2[j]) implies
        #[trigger] record_time(r2[i]) == #[trigger] record_time(r2[j]) by {
        assert(r2.contains(r2[i]) && r2.contains(r2[j]));
        let a = choose|a: int| 0 <= a < r1.len() && r1[a] == r2[i];
        let b = choose|b: int| 0 <= b < r1.len() && r1[b] == r2[j];
        assert(record_time(r1[a]) == record_time(r1[b]));
    }
    lemma_packages_of_content(r1);
    lemma_packages_of_content(r2);
    let m1 = packages_of(r1);
    let m2 = packages_of(r2);
    assert forall|n: Seq<char>| m1.dom().contains(n) <==> m2.dom().contains(n) by {
        if m1.dom().contains(n) {
            let i = choose|i: int| 0 <= i < r1.len() && #[trigger] record_name(r1[i]) == n;
            assert(r1.contains(r1[i]));
            let j = choose|j: int| 0 <= j < r2.len() && r2[j] == r1[i];
            assert(record_name(r2[j]) == n);
        }
        if m2.dom().contains(n) {
            let i = choose|i: int| 0 <= i < r2.len() && #[trigger] record_name(r2[i]) == n;
            assert(r2.contains(r2[i]));
            let j = choose|j: int| 0 <= j < r1.len() && r1[j] == r2[i];
            assert(record_name(r1[j]) == n);
        }
    }
    assert forall|n: Seq<char>| m1.dom().contains(n) implies m1[n] == m2[n] by {
        let i = choose|i: int| 0 <= i < r1.len() && #[trigger] record_name(r1[i]) == n;
        assert(r1.contains(r1[i]));
        let j = choose|j: int| 0 <= j < r2.len() && r2[j] == r1[i];
        assert(m1[record_name(r1[i])] == record_time(r1[i])->0);
        assert(m2[record_name(r2[j])] == record_time(r2[j])->0);
    }
    assert(m1 =~= m2);
}

/// One record of the output: a package name, and the text after the first
/// `,`, if there is one.
pub struct RpmRecord {
    pub name: String,
    pub stamp: Option<String>,
}

proof fn lemma_first_comma(t: Seq<char>, k: int)
    requires
        is_first_comma(t, k),
    ensures
        has_comma(t),
        first_comma(t) == k,
{
    let c = first_comma(t);
    assert(is_first_comma(t, c));
    if c < k {
        assert(t[c] == ',');
    } else if c > k {
        assert(t[k] == ',');
    }
}

/// The characters of `v` from `lo` up to `hi`.
fn copy_range(v: &Vec<char>, lo: usize, hi: usize) -> (r: Vec<char>)
    requires
        lo <= hi <= v.len(),
    ensures
        r@ == v@.subrange(lo as int, hi as int),
{
    let mut r: Vec<char> = Vec::new();
    let mut i = lo;
    while i < hi
        invariant
            lo <= i <= hi,
            hi <= v.len(),
            r@ == v@.subrange(lo as int, i as int),
        decreases hi - i,
    {
        r.push(v[i]);
        i = i + 1;
        assert(r@ =~= v@.subrange(lo as int, i as int));
    }
    r
}

/// Splits a record at its first `,`.
fn split_record(t: &Vec<char>) -> (r: (Vec<char>, Option<Vec<char>>))
    ensures
        r.0@ == record_name(t@),
        match r.1 {
            Some(s) => record_stamp(t@) == Some(s@),
            None => record_stamp(t@) is None,
        },
{
    let mut k: usize = 0;
    while k < t.len() && t[k] != ','
        invariant
            k <= t.len(),
            forall|j: int| 0 <= j < k ==> t@[j] != ',',
        decreases t.len() - k,
    {
        k = k + 1;
    }
    if k == t.len() {
        proof {
            if has_comma(t@) {
                let j = choose|j: int| 0 <= j < t@.len() && t@[j] == ',';
                assert(t@[j] != ',');
            }
        }
        (t.clone(), None)
    } else {
        proof {
            lemma_first_comma(t@, k as int);
        }
        let name = copy_range(t, 0, k);
        let stamp = copy_range(t, k + 1, t.len());
        proof {
            assert(name@ =~= t@.take(k as int));
            assert(stamp@ =~= t@.skip(k + 1));
        }
        (name, Some(stamp))
    }
}

/// The records of the output, in order: its white-space separated tokens,
/// each split at its first `,`.
pub fn rpm_records(output: &str) -> (r: Vec<RpmRecord>)
    ensures
        r.len() == split_whitespace(output@).len(),
        forall|i: int|
            0 <= i < r.len() ==> (#[trigger] r@[i]).name@ == record_name(
                split_whitespace(output@)[i],
            ) && opt_chars(r@[i].stamp) == record_stamp(split_whitespace(output@)[i]),
{
    let text = chars_of(output);
    let tokens = whitespace_tokens(&text);
    let ghost toks = split_whitespace(output@);
    let mut r: Vec<RpmRecord> = Vec::new();
    let mut i: usize = 0;
    while i < tokens.len()
        invariant
            i <= tokens.len(),
            views(tokens@) == toks,
            r.len() == i,
            forall|j: int|
                0 <= j < i ==> (#[trigger] r@[j]).name@ == record_name(toks[j]) && opt_chars(
                    r@[j].stamp,
                ) == record_stamp(toks[j]),
        decreases tokens.len() - i,
    {
        assert(tokens@[i as int]@ == toks[i as int]);
        let (name, stamp) = split_record(&tokens[i]);
        let stamp_text = match stamp {
            Some(s) => Some(string_of(&s)),
            None => None,
        };
        r.push(RpmRecord { name: string_of(&name), stamp: stamp_text });
        i = i + 1;
    }
    r
}

/// Why the output of the rpm query gives no metadata.
pub enum RpmQueryError {
    /// The output is not UTF-8.
    NotUtf8(std::str::Utf8Error),
    /// A record has no `,`: the whole token.
    MissingBuildTime { record: String },
    /// The build time text of a record is not a number of seconds.
    InvalidBuildTime { stamp: String, error: chrono::format::ParseError },
    /// The output names no package.
    NoPackages,
}

/// What chrono made of the build time text of a record; `None` where the
/// record has no such text.
pub type StampParse = Option<Result<Timestamp, chrono::format::ParseError>>;

/// The record gives no build time: it has no text, or chrono refused it.
pub open spec fn parse_failed(o: StampParse) -> bool {
    !(o matches Some(Ok(_)))
}

/// Every record gives a build time.
pub open spec fn all_parsed(parsed: Seq<StampParse>) -> bool {
    forall|i: int| 0 <= i < parsed.len() ==> !parse_failed(#[trigger] parsed[i])
}

/// The first record that gives no build time is the one at `k`.
pub open spec fn first_failure(parsed: Seq<StampParse>, k: int) -> bool {
    &&& 0 <= k < parsed.len()
    &&& all_parsed(parsed.take(k))
    &&& parse_failed(parsed[k])
}

/// The names of the records.
pub open spec fn record_names(records: Seq<RpmRecord>) -> Seq<Seq<char>> {
    records.map_values(|r: RpmRecord| r.name@)
}

/// The packages that the first records name, each with the build time that
/// chrono read for its last record.
pub open spec fn parsed_packages(names: Seq<Seq<char>>, parsed: Seq<StampParse>) -> Map<
    Seq<char>,
    Timestamp,
>
    decreases parsed.len(),
{
    if parsed.len() == 0 {
        Map::empty()
    } else {
        parsed_packages(names, parsed.drop_last()).insert(
            names[parsed.len() - 1],
            parsed.last()->0->Ok_0,
        )
    }
}

/// The metadata that the records give, from what chrono made of their build
/// time texts, in order up to the first record that gives none: that record's
/// error, or else the latest build time of the packages with their names, in
/// order and each once, separated by `,`, as the version.
pub fn metadata_from_parsed(records: &Vec<RpmRecord>, parsed: &Vec<StampParse>) -> (r: Result<
    ContentMetadata,
    RpmQueryError,
>)
    requires
        parsed.len() <= records.len(),
        forall|i: int| 0 <= i < parsed.len() ==> (#[trigger] parsed@[i] is Some) == (
        records@[i].stamp is Some),
        parsed.len() < records.len() ==> exists|k: int|
            0 <= k < parsed.len() && parse_failed(#[trigger] parsed@[k]),
    ensures
        r is Ok <==> (all_parsed(parsed@) && records.len() > 0),
        match r {
            Ok(meta) => metadata_matches(meta, parsed_packages(record_names(records@), parsed@)),
            Err(RpmQueryError::MissingBuildTime { record }) => exists|k: int|
                first_failure(parsed@, k) && parsed@[k] is None && record@ == records@[k].name@,
            Err(RpmQueryError::InvalidBuildTime { stamp, error }) => exists|k: int|
                first_failure(parsed@, k) && parsed@[k] == Some(
                    Err::<Timestamp, chrono::format::ParseError>(error),
                ) && (records@[k].stamp matches Some(st) && stamp@ == st@),
            Err(RpmQueryError::NoPackages) => all_parsed(parsed@) && records.len() == 0,
            Err(RpmQueryError::NotUtf8(_)) => false,
        },
{
    let ghost names = record_names(records@);
    let mut packages = PackageSet::new();
    let mut i: usize = 0;
    while i < parsed.len()
        invariant
            i <= parsed.len(),
            parsed.len() <= records.len(),
            names == record_names(records@),
            forall|j: int| 0 <= j < parsed.len() ==> (#[trigger] parsed@[j] is Some) == (
            records@[j].stamp is Some),
            packages.wf(),
            all_parsed(parsed@.take(i as int)),
            packages@ == parsed_packages(names, parsed@.take(i as int)),
        decreases parsed.len() - i,
    {
        proof {
            assert(parsed@.take(i + 1).drop_last() =~= parsed@.take(i as int));
        }
        match &parsed[i] {
            None => {
                proof {
                    assert(first_failure(parsed@, i as int));
                    assert(!all_parsed(parsed@));
                }
                return Err(RpmQueryError::MissingBuildTime { record: records[i].name.clone() });
            },
            Some(Err(e)) => {
                let stamp = match &records[i].stamp {
                    Some(st) => st.clone(),
                    None => String::new(),
                };
                let error = *e;
                proof {
                    assert(first_failure(parsed@, i as int));
                    assert(!all_parsed(parsed@));
                    assert(parsed@[i as int] == Some(Err::<Timestamp, chrono::format::ParseError>(error)));
                    assert(records@[i as int].stamp matches Some(st) && stamp@ == st@);
                }
                return Err(RpmQueryError::InvalidBuildTime { stamp, error });
            },
            Some(Ok(t)) => {
                packages.insert(records[i].name.as_str(), *t);
                proof {
                    assert forall|j: int| 0 <= j < i + 1 implies !parse_failed(
                        #[trigger] parsed@.take(i + 1)[j],
                    ) by {
                        if j < i {
                            assert(parsed@.take(i + 1)[j] == parsed@.take(i as int)[j]);
                        }
                    }
                }
            },
        }
        i = i + 1;
    }
    proof {
        assert(parsed@.take(parsed.len() as int) =~= parsed@);
        assert forall|k: int| 0 <= k < parsed.len() implies !parse_failed(#[trigger] parsed@[k]) by {
            assert(parsed@.take(parsed.len() as int)[k] == parsed@[k]);
        }
        assert(parsed.len() == records.len());
        assert forall|k: int| !first_failure(parsed@, k) by {}
    }
    match packages.content_metadata() {
        Some(meta) => Ok(meta),
        None => {
            proof {
                if records.len() > 0 {
                    assert(parsed_packages(names, parsed@).dom().contains(names[parsed.len() - 1]));
                    assert(!(packages@.dom() =~= Set::<Seq<char>>::empty()));
                }
            }
            Err(RpmQueryError::NoPackages)
        },
    }
}

/// What chrono read of the first records is what the records give, so the
/// packages are those the records name.
proof fn lemma_parsed_packages(
    names: Seq<Seq<char>>,
    parsed: Seq<StampParse>,
    records: Seq<Seq<char>>,
    n: int,
)
    requires
        0 <= n <= parsed.len(),
        parsed.len() <= records.len(),
        names.len() == records.len(),
        forall|j: int| 0 <= j < n ==> #[trigger] names[j] == record_name(records[j]),
        forall|j: int|
            0 <= j < n ==> (#[trigger] parsed[j] matches Some(Ok(t)) && record_time(records[j])
                == Some(t)),
    ensures
        parsed_packages(names, parsed.take(n)) == packages_of(records.take(n)),
    decreases n,
{
    if n > 0 {
        lemma_parsed_packages(names, parsed, records, n - 1);
        assert(parsed.take(n).drop_last() =~= parsed.take(n - 1));
        assert(records.take(n).drop_last() =~= records.take(n - 1));
        assert(parsed[n - 1] matches Some(Ok(_)));
    }
}

/// The metadata of a component from the output of the rpm query on its files:
/// the latest build time of the packages, and their names, in order and each
/// once, separated by `,`, as the version.
pub fn parse_rpm_query(stdout: &[u8]) -> (r: Result<ContentMetadata, RpmQueryError>)
    ensures
        r matches Err(RpmQueryError::NotUtf8(_)) <==> !valid_utf8(stdout@),
        valid_utf8(stdout@) ==> ({
            let records = split_whitespace(decode_utf8(stdout@));
            &&& r is Ok <==> (all_records_timed(records) && records.len() > 0)
            &&& match r {
                Ok(meta) => metadata_matches(meta, packages_of(records)),
                Err(RpmQueryError::MissingBuildTime { record }) => exists|k: int|
                    first_untimed(records, k) && record_stamp(records[k]) is None && record@
                        == records[k],
                Err(RpmQueryError::InvalidBuildTime { stamp, .. }) => exists|k: int|
                    first_untimed(records, k) && record_stamp(records[k]) == Some(stamp@),
                Err(RpmQueryError::NoPackages) => records.len() == 0,
                Err(RpmQueryError::NotUtf8(_)) => false,
            }
        }),
{
    let text = match str_from_utf8(stdout) {
        Ok(s) => s,
        Err(e) => return Err(RpmQueryError::NotUtf8(e)),
    };
    let ghost records = split_whitespace(text@);
    let recs = rpm_records(text);
    let mut parsed: Vec<StampParse> = Vec::new();
    let mut failed = false;
    let mut i: usize = 0;
    while i < recs.len() && !failed
        invariant
            i <= recs.len(),
            recs.len() == records.len(),
            parsed.len() == i,
            forall|j: int|
                0 <= j < recs.len() ==> (#[trigger] recs@[j]).name@ == record_name(records[j])
                    && opt_chars(recs@[j].stamp) == record_stamp(records[j]),
            forall|j: int|
                0 <= j < i ==> (#[trigger] parsed@[j] is Some) == (recs@[j].stamp is Some),
            forall|j: int|
                0 <= j < i ==> (parse_failed(#[trigger] parsed@[j]) <==> record_time(records[j]) is None),
            forall|j: int|
                0 <= j < i ==> (#[trigger] parsed@[j] matches Some(Ok(t)) ==> record_time(records[j])
                    == Some(t)),
            failed ==> i > 0 && parse_failed(parsed@[i - 1]),
            forall|j: int| 0 <= j < i && !(failed && j == i - 1) ==> !parse_failed(#[trigger] parsed@[j]),
        decreases recs.len() - i,
    {
        match &recs[i].stamp {
            None => {
                parsed.push(None);
                failed = true;
            },
            Some(st) => {
                let p = parse_epoch_seconds(st.as_str());
                failed = p.is_err();
                parsed.push(Some(p));
            },
        }
        i = i + 1;
    }
    let r = metadata_from_parsed(&recs, &parsed);
    proof {
        let names = record_names(recs@);
        assert forall|j: int| 0 <= j < recs.len() implies #[trigger] names[j] == record_name(records[j]) by {
            assert(recs@[j].name@ == record_name(records[j]));
        }
        if all_parsed(parsed@) {
            if parsed.len() < recs.len() {
                assert(parse_failed(parsed@[i - 1]));
            }
            assert(parsed.len() == recs.len());
            assert forall|j: int| 0 <= j < records.len() implies (#[trigger] record_time(records[j])) is Some by {
                assert(!parse_failed(parsed@[j]));
            }
            assert(all_records_timed(records));
            assert forall|j: int| 0 <= j < parsed.len() implies (#[trigger] parsed@[j] matches Some(Ok(t))
                && record_time(records[j]) == Some(t)) by {
                assert(!parse_failed(parsed@[j]));
            }
            lemma_parsed_packages(names, parsed@, records, parsed.len() as int);
            assert(parsed@.take(parsed.len() as int) =~= parsed@);
            assert(records.take(records.len() as int) =~= records);
        } else {
            let k = choose|k: int| 0 <= k < parsed.len() && parse_failed(#[trigger] parsed@[k]);
            assert(!all_records_timed(records)) by {
                assert(record_time(records[k]) is None);
            }
        }
        assert forall|k: int| first_failure(parsed@, k) implies first_untimed(records, k) by {
            assert forall|j: int| 0 <= j < k implies (#[trigger] record_time(records.take(k)[j])) is Some by {
                assert(!parse_failed(parsed@.take(k)[j]));
                assert(records.take(k)[j] == records[j]);
            }
        }
        match &r {
            Err(RpmQueryError::MissingBuildTime { record }) => {
                let k = choose|k: int|
                    first_failure(parsed@, k) && parsed@[k] is None && record@ == recs@[k].name@;
                assert(first_untimed(records, k));
                assert(record_stamp(records[k]) is None);
                assert(record@ == records[k]);
            },
            Err(RpmQueryError::InvalidBuildTime { stamp, error }) => {
                let k = choose|k: int|
                    first_failure(parsed@, k) && parsed@[k] == Some(
                        Err::<Timestamp, chrono::format::ParseError>(*error),
                    ) && (recs@[k].stamp matches Some(st) && stamp@ == st@);
                assert(first_untimed(records, k));
                assert(opt_chars(recs@[k].stamp) == record_stamp(records[k]));
            },
            _ => {},
        }
    }
    r
}

} // verus!
