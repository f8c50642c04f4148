//! The single linear pass over the bucket enumeration: counting every
//! bucket, filtering by region in strict mode, and producing the output
//! lines and the summary line.
//!
//! The storage directory is consumed as plain data: each page fetch and
//! each per-bucket location lookup either yields its value or reports
//! the metadata of its failure. The first failure aborts the pass; the
//! lines produced before it stand, and no summary is produced.

use vstd::prelude::*;
use vstd::string::StringExecFns;

use crate::decimal::spec_dec;
use crate::decimal::u64_to_string;
use crate::error::S3ExampleError;
use crate::error::metadata_text;
use crate::region::is_known_region;
use crate::region::parse_region;

verus! {

/// The metadata a failed collaborator call reports: an optional short
/// code and an optional human-readable message.
pub struct RequestFailure {
    pub code: Option<String>,
    pub message: Option<String>,
}

/// The text of the uniform error built from a failure's metadata.
pub open spec fn failure_text(f: RequestFailure) -> Seq<char> {
    metadata_text(f.code.deep_view(), f.message.deep_view())
}

/// The outcome of fetching one page of the bucket enumeration: the
/// bucket names on the page, or the failure that ended the enumeration.
pub enum PageResult {
    Buckets(Vec<String>),
    Failure(RequestFailure),
}

/// The outcome of one per-bucket location lookup: the declared location
/// constraint, if any, or the failure the lookup reports.
pub enum LookupResult {
    Location(Option<String>),
    Failure(RequestFailure),
}

/// The texts of a sequence of strings.
pub open spec fn texts(v: Seq<String>) -> Seq<Seq<char>> {
    v.map_values(|s: String| s@)
}

proof fn lemma_texts_push(s: Seq<String>, x: String)
    ensures
        texts(s.push(x)) == texts(s).push(x@),
{
    assert(texts(s.push(x)) =~= texts(s).push(x@));
}

/// The names contributed by one page; a failed page contributes none.
pub open spec fn page_lines(p: PageResult) -> Seq<Seq<char>> {
    match p {
        PageResult::Buckets(v) => texts(v@),
        PageResult::Failure(_) => Seq::empty(),
    }
}

/// The index of the first failed page among the first `n`, or `n` if
/// every one of them succeeded.
pub open spec fn page_cut(pages: Seq<PageResult>, n: nat) -> nat
    decreases n,
{
    if n == 0 {
        0
    } else {
        let p = page_cut(pages, (n - 1) as nat);
        if p < n - 1 {
            p
        } else if pages[n - 1] is Failure {
            (n - 1) as nat
        } else {
            n
        }
    }
}

/// All bucket names on the first `n` pages, in order.
pub open spec fn flat_upto(pages: Seq<PageResult>, n: nat) -> Seq<Seq<char>>
    decreases n,
{
    if n == 0 {
        Seq::empty()
    } else {
        flat_upto(pages, (n - 1) as nat) + page_lines(pages[n - 1])
    }
}

/// The bucket names the enumeration yields: those on the pages before
/// the first failed page.
pub open spec fn ok_names(pages: Seq<PageResult>) -> Seq<Seq<char>> {
    flat_upto(pages, page_cut(pages, pages.len()))
}

/// Whether a lookup succeeded and reported exactly the target region.
pub open spec fn lookup_matches(l: LookupResult, region: Seq<char>) -> bool {
    match l {
        LookupResult::Location(loc) => loc.deep_view() == Some(region),
        LookupResult::Failure(_) => false,
    }
}

/// The index of the first failed lookup among the first `n`, or `n` if
/// every one of them succeeded.
pub open spec fn lookup_cut(lookups: Seq<LookupResult>, n: nat) -> nat
    decreases n,
{
    if n == 0 {
        0
    } else {
        let p = lookup_cut(lookups, (n - 1) as nat);
        if p < n - 1 {
            p
        } else if lookups[n - 1] is Failure {
            (n - 1) as nat
        } else {
            n
        }
    }
}

/// The lines printed in strict mode for the first `n` buckets: the
/// names whose lookup reported the target region.
pub open spec fn strict_lines(
    names: Seq<Seq<char>>,
    lookups: Seq<LookupResult>,
    region: Seq<char>,
    n: nat,
) -> Seq<Seq<char>>
    decreases n,
{
    if n == 0 {
        Seq::empty()
    } else {
        strict_lines(names, lookups, region, (n - 1) as nat) + if lookup_matches(
            lookups[n - 1],
            region,
        ) {
            seq![names[n - 1]]
        } else {
            Seq::empty()
        }
    }
}

/// How many of the first `n` buckets reported the target region.
pub open spec fn matched_upto(lookups: Seq<LookupResult>, region: Seq<char>, n: nat) -> nat
    decreases n,
{
    if n == 0 {
        0
    } else {
        matched_upto(lookups, region, (n - 1) as nat) + if lookup_matches(
            lookups[n - 1],
            region,
        ) {
            1nat
        } else {
            0nat
        }
    }
}

/// The summary line printed after a pass that ran to completion.
pub open spec fn spec_summary(strict: bool, region: Seq<char>, matched: nat, total: nat) -> Seq<
    char,
> {
    if strict {
        "Found "@ + spec_dec(matched) + " buckets in the "@ + region
            + " region out of a total of "@ + spec_dec(total) + " buckets."@
    } else {
        "Found "@ + spec_dec(total) + " buckets in all regions."@
    }
}

/// The texts of a pass's outcome: the summary line on success, the
/// uniform error's message on failure.
pub open spec fn outcome_view(r: Result<String, S3ExampleError>) -> Result<Seq<char>, Seq<char>> {
    match r {
        Ok(s) => Ok(s@),
        Err(e) => Err(e@),
    }
}

/// What one pass over the given collaborator responses produces: which
/// lines are printed and whether a summary or a uniform error follows
/// them. The first failure wins: a lookup failure among the enumerated
/// buckets, else the page failure, else the summary.
pub open spec fn listing_post(
    strict: bool,
    region: Seq<char>,
    pages: Seq<PageResult>,
    lookups: Seq<LookupResult>,
    lines: Seq<Seq<char>>,
    outcome: Result<Seq<char>, Seq<char>>,
) -> bool {
    let pcut = page_cut(pages, pages.len());
    let names = ok_names(pages);
    if strict {
        let lcut = lookup_cut(lookups, names.len());
        if lcut < names.len() {
            &&& lines == strict_lines(names, lookups, region, lcut)
            &&& outcome == Result::<Seq<char>, Seq<char>>::Err(
                failure_text(lookups[lcut as int]->Failure_0),
            )
        } else if pcut < pages.len() {
            &&& lines == strict_lines(names, lookups, region, names.len())
            &&& outcome == Result::<Seq<char>, Seq<char>>::Err(
                failure_text(pages[pcut as int]->Failure_0),
            )
        } else {
            &&& lines == strict_lines(names, lookups, region, names.len())
            &&& outcome == Result::<Seq<char>, Seq<char>>::Ok(
                spec_summary(true, region, matched_upto(lookups, region, names.len()), names.len()),
            )
        }
    } else {
        if pcut < pages.len() {
            &&& lines == names
            &&& outcome == Result::<Seq<char>, Seq<char>>::Err(
                failure_text(pages[pcut as int]->Failure_0),
            )
        } else {
            &&& lines == names
            &&& outcome == Result::<Seq<char>, Seq<char>>::Ok(
                spec_summary(false, region, 0, names.len()),
            )
        }
    }
}

/// Copies an optional text value.
fn clone_opt_text(o: &Option<String>) -> (r: Option<String>)
    ensures
        r.deep_view() == o.deep_view(),
{
    match o {
        Some(s) => Some(s.clone()),
        None => None,
    }
}

/// Builds the uniform error for a failed collaborator call.
pub fn uniform_error(f: &RequestFailure) -> (e: S3ExampleError)
    ensures
        e@ == failure_text(*f),
{
    S3ExampleError::from_metadata(clone_opt_text(&f.code), clone_opt_text(&f.message))
}

/// The running tally of one pass: the target region, the mode, and the
/// two counters.
pub struct BucketLister {
    strict: bool,
    region: String,
    total: u64,
    matched: u64,
}

impl BucketLister {
    /// Whether the pass filters by region.
    pub closed spec fn strict(&self) -> bool {
        self.strict
    }

    /// The target region.
    pub closed spec fn region(&self) -> Seq<char> {
        self.region@
    }

    /// How many buckets the pass has seen.
    pub closed spec fn total(&self) -> u64 {
        self.total
    }

    /// How many seen buckets reported the target region.
    pub closed spec fn matched(&self) -> u64 {
        self.matched
    }

    /// The counters never run backwards: no bucket matches without
    /// being counted.
    pub closed spec fn wf(&self) -> bool {
        self.matched <= self.total
    }

    /// A fresh tally for one pass.
    pub fn new(strict: bool, region: String) -> (r: Self)
        ensures
            r.strict() == strict,
            r.region() == region@,
            r.total() == 0,
            r.matched() == 0,
            r.wf(),
    {
        BucketLister { strict, region, total: 0, matched: 0 }
    }

    /// How many buckets the pass has counted so far; a caller outside
    /// verified code tests this against the tally's capacity before
    /// recording another bucket.
    pub fn total_count(&self) -> (r: u64)
        ensures
            r == self.total(),
    {
        self.total
    }

    /// Whether each bucket needs a location lookup before it is recorded.
    pub fn is_strict(&self) -> (r: bool)
        ensures
            r == self.strict(),
    {
        self.strict
    }

    /// Records one enumerated bucket and decides its output line. In
    /// strict mode `location` is what the bucket's lookup reported, and
    /// the name is printed exactly when it equals the target region; in
    /// non-strict mode no lookup was made and the name is always printed.
    pub fn record_bucket(&mut self, name: &String, location: Option<&String>) -> (line: Option<
        String,
    >)
        requires
            old(self).total() < u64::MAX,
            old(self).wf(),
        ensures
            final(self).wf(),
            final(self).strict() == old(self).strict(),
            final(self).region() == old(self).region(),
            final(self).total() == old(self).total() + 1,
            line is Some <==> (!old(self).strict() || location.deep_view() == Some(
                old(self).region(),
            )),
            line matches Some(l) ==> l@ == name@,
            old(self).strict() && location.deep_view() == Some(old(self).region())
                ==> final(self).matched() == old(self).matched() + 1,
            !(old(self).strict() && location.deep_view() == Some(old(self).region()))
                ==> final(self).matched() == old(self).matched(),
    {
        self.total = self.total + 1;
        let printed: bool;
        if self.strict {
            printed = match location {
                Some(loc) => *loc == self.region,
                None => false,
            };
            if printed {
                self.matched = self.matched + 1;
            }
        } else {
            printed = true;
        }
        if printed {
            Some(name.clone())
        } else {
            None
        }
    }

    /// The summary line for the pass as it stands.
    pub fn summary(&self) -> (line: String)
        ensures
            line@ == spec_summary(
                self.strict(),
                self.region(),
                self.matched() as nat,
                self.total() as nat,
            ),
    {
        if self.strict {
            let mut s = String::from_str("Found ");
            let m = u64_to_string(self.matched);
            s.append(m.as_str());
            s.append(" buckets in the ");
            s.append(self.region.as_str());
            s.append(" region out of a total of ");
            let t = u64_to_string(self.total);
            s.append(t.as_str());
            s.append(" buckets.");
            s
        } else {
            let mut s = String::from_str("Found ");
            let t = u64_to_string(self.total);
            s.append(t.as_str());
            s.append(" buckets in all regions.");
            s
        }
    }
}

/// Once a page has failed, the cut stays at that page however much
/// further the enumeration would reach.
proof fn lemma_page_cut_stable(pages: Seq<PageResult>, i: nat, n: nat)
    requires
        page_cut(pages, i) == i,
        pages[i as int] is Failure,
        i < n,
    ensures
        page_cut(pages, n) == i,
    decreases n,
{
    if n > i + 1 {
        lemma_page_cut_stable(pages, i, (n - 1) as nat);
    }
}

/// Once a lookup has failed, the cut stays at that lookup however many
/// more buckets the enumeration holds.
proof fn lemma_lookup_cut_stable(lookups: Seq<LookupResult>, i: nat, n: nat)
    requires
        lookup_cut(lookups, i) == i,
        lookups[i as int] is Failure,
        i < n,
    ensures
        lookup_cut(lookups, n) == i,
    decreases n,
{
    if n > i + 1 {
        lemma_lookup_cut_stable(lookups, i, (n - 1) as nat);
    }
}

/// One pass over the collaborator's responses. `pages` holds the pages
/// of the enumeration in order; in strict mode `lookups` holds, in the
/// same order, the lookup answer for each enumerated bucket. Returns
/// the output lines in order and, after them, either the summary line
/// or the uniform error that aborted the pass.
pub fn show_buckets(
    strict: bool,
    region: &String,
    pages: &Vec<PageResult>,
    lookups: &Vec<LookupResult>,
) -> (r: (Vec<String>, Result<String, S3ExampleError>))
    requires
        ok_names(pages@).len() <= u64::MAX,
        strict ==> lookups@.len() >= ok_names(pages@).len(),
    ensures
        listing_post(strict, region@, pages@, lookups@, texts(r.0@), outcome_view(r.1)),
{
    let mut names: Vec<String> = Vec::new();
    let mut pfail: Option<S3ExampleError> = None;
    let mut pi: usize = 0;
    while pi < pages.len() && pfail.is_none()
        invariant
            pi <= pages@.len(),
            texts(names@) == flat_upto(pages@, pi as nat),
            pfail is None ==> page_cut(pages@, pi as nat) == pi as nat,
            pfail matches Some(e) ==> {
                &&& pi < pages@.len()
                &&& page_cut(pages@, pages@.len()) == pi as nat
                &&& pages@[pi as int] is Failure
                &&& e@ == failure_text(pages@[pi as int]->Failure_0)
            },
        decreases pages@.len() - pi, (if pfail is None { 1int } else { 0int }),
    {
        match &pages[pi] {
            PageResult::Buckets(v) => {
                let ghost base = texts(names@);
                let mut k: usize = 0;
                while k < v.len()
                    invariant
                        k <= v@.len(),
                        texts(names@) == base + texts(v@).take(k as int),
                    decreases v@.len() - k,
                {
                    let cl = v[k].clone();
                    proof {
                        lemma_texts_push(names@, cl);
                        assert(texts(v@).take(k as int + 1) =~= texts(v@).take(k as int).push(
                            texts(v@)[k as int],
                        ));
                        assert((base + texts(v@).take(k as int)).push(texts(v@)[k as int]) =~= base
                            + texts(v@).take(k as int + 1));
                    }
                    names.push(cl);
                    k += 1;
                }
                proof {
                    assert(texts(v@).take(v@.len() as int) =~= texts(v@));
                    assert(texts(names@) =~= flat_upto(pages@, (pi + 1) as nat));
                }
                pi += 1;
            },
            PageResult::Failure(f) => {
                proof {
                    lemma_page_cut_stable(pages@, pi as nat, pages@.len());
                }
                pfail = Some(uniform_error(f));
            },
        }
    }
    proof {
        assert(texts(names@) == ok_names(pages@));
    }
    let ghost nms: Seq<Seq<char>> = texts(names@);

    let mut lister = BucketLister::new(strict, region.clone());
    let mut lines: Vec<String> = Vec::new();
    let mut lfail: Option<S3ExampleError> = None;
    let mut bi: usize = 0;
    if strict {
        while bi < names.len() && lfail.is_none()
            invariant
                strict,
                bi <= nms.len(),
                nms == texts(names@),
                nms == ok_names(pages@),
                nms.len() <= u64::MAX,
                lookups@.len() >= nms.len(),
                lister.strict() == strict,
                lister.region() == region@,
                lister.wf(),
                lister.total() as int == bi as int,
                lister.matched() as nat == matched_upto(lookups@, region@, bi as nat),
                texts(lines@) == strict_lines(nms, lookups@, region@, bi as nat),
                lfail is None ==> lookup_cut(lookups@, bi as nat) == bi as nat,
                lfail matches Some(e) ==> {
                    &&& bi < nms.len()
                    &&& lookup_cut(lookups@, nms.len()) == bi as nat
                    &&& lookups@[bi as int] is Failure
                    &&& e@ == failure_text(lookups@[bi as int]->Failure_0)
                },
            decreases nms.len() - bi, (if lfail is None { 1int } else { 0int }),
        {
            match &lookups[bi] {
                LookupResult::Location(loc) => {
                    let locref = loc.as_ref();
                    proof {
                        assert(locref.deep_view() == loc.deep_view());
                    }
                    let line = lister.record_bucket(&names[bi], locref);
                    proof {
                        assert(lookups@[bi as int] == LookupResult::Location(*loc));
                    }
                    match line {
                        Some(l) => {
                            proof {
                                lemma_texts_push(lines@, l);
                                assert(texts(lines@).push(l@) =~= strict_lines(
                                    nms,
                                    lookups@,
                                    region@,
                                    bi as nat + 1,
                                ));
                            }
                            lines.push(l);
                        },
                        None => {
                            proof {
                                assert(texts(lines@) =~= strict_lines(
                                    nms,
                                    lookups@,
                                    region@,
                                    bi as nat + 1,
                                ));
                            }
                        },
                    }
                    bi += 1;
                },
                LookupResult::Failure(f) => {
                    proof {
                        lemma_lookup_cut_stable(lookups@, bi as nat, nms.len());
                    }
                    lfail = Some(uniform_error(f));
                },
            }
        }
    } else {
        while bi < names.len()
            invariant
                !strict,
                bi <= nms.len(),
                nms == texts(names@),
                nms == ok_names(pages@),
                nms.len() <= u64::MAX,
                lister.strict() == strict,
                lister.region() == region@,
                lister.wf(),
                lister.total() as int == bi as int,
                lister.matched() == 0,
                texts(lines@) == nms.take(bi as int),
            decreases nms.len() - bi,
        {
            let line = lister.record_bucket(&names[bi], None);
            match line {
                Some(l) => {
                    proof {
                        lemma_texts_push(lines@, l);
                        assert(texts(lines@).push(l@) =~= nms.take(bi as int + 1));
                    }
                    lines.push(l);
                },
                None => {},
            }
            bi += 1;
        }
        proof {
            assert(nms.take(nms.len() as int) =~= nms);
        }
    }

    match lfail {
        Some(e) => (lines, Err(e)),
        None => {
            match pfail {
                Some(e) => (lines, Err(e)),
                None => {
                    let summary = lister.summary();
                    (lines, Ok(summary))
                },
            }
        },
    }
}

/// The whole listing: parses the target region, then makes one pass
/// over the collaborator's responses. A region the service does not
/// know surfaces as the uniform error before any enumeration: no line
/// is produced.
pub fn run_listing(
    strict: bool,
    region_name: &String,
    pages: &Vec<PageResult>,
    lookups: &Vec<LookupResult>,
) -> (r: (Vec<String>, Result<String, S3ExampleError>))
    requires
        ok_names(pages@).len() <= u64::MAX,
        strict ==> lookups@.len() >= ok_names(pages@).len(),
    ensures
        !is_known_region(region_name@) ==> r.0@.len() == 0 && r.1 is Err,
        is_known_region(region_name@) ==> listing_post(
            strict,
            region_name@,
            pages@,
            lookups@,
            texts(r.0@),
            outcome_view(r.1),
        ),
{
    match parse_region(region_name) {
        Ok(region) => show_buckets(strict, &region, pages, lookups),
        Err(e) => (Vec::new(), Err(e)),
    }
}

/// In strict mode one line is printed for each bucket whose lookup
/// reports the target region and for no other: however the first `n`
/// lookups answer, the printed lines are exactly as many as the
/// matching buckets among them, and never more than `n`.
pub proof fn lemma_strict_lines_matched(
    names: Seq<Seq<char>>,
    lookups: Seq<LookupResult>,
    region: Seq<char>,
    n: nat,
)
    ensures
        strict_lines(names, lookups, region, n).len() == matched_upto(lookups, region, n),
        matched_upto(lookups, region, n) <= n,
    decreases n,
{
    if n > 0 {
        lemma_strict_lines_matched(names, lookups, region, (n - 1) as nat);
    }
}

/// A pass in non-strict mode over an enumeration with no failed page
/// prints one line per bucket, in order, and its summary counts every
/// one of them.
pub proof fn lemma_all_regions_lists_every_bucket(
    region: Seq<char>,
    pages: Seq<PageResult>,
    lookups: Seq<LookupResult>,
    lines: Seq<Seq<char>>,
    outcome: Result<Seq<char>, Seq<char>>,
)
    requires
        listing_post(false, region, pages, lookups, lines, outcome),
        page_cut(pages, pages.len()) == pages.len(),
    ensures
        lines == ok_names(pages),
        lines.len() == ok_names(pages).len(),
        outcome == Result::<Seq<char>, Seq<char>>::Ok(
            spec_summary(false, region, 0, ok_names(pages).len()),
        ),
{
}

/// A pass in strict mode with no failure prints exactly the names of
/// the buckets whose lookup reports the target region, and its summary
/// counts those as matched and all enumerated buckets as the total.
pub proof fn lemma_strict_prints_exactly_matches(
    region: Seq<char>,
    pages: Seq<PageResult>,
    lookups: Seq<LookupResult>,
    lines: Seq<Seq<char>>,
    outcome: Result<Seq<char>, Seq<char>>,
)
    requires
        listing_post(true, region, pages, lookups, lines, outcome),
        page_cut(pages, pages.len()) == pages.len(),
        lookup_cut(lookups, ok_names(pages).len()) == ok_names(pages).len(),
    ensures
        lines == strict_lines(ok_names(pages), lookups, region, ok_names(pages).len()),
        lines.len() == matched_upto(lookups, region, ok_names(pages).len()),
        matched_upto(lookups, region, ok_names(pages).len()) <= ok_names(pages).len(),
        outcome == Result::<Seq<char>, Seq<char>>::Ok(
            spec_summary(
                true,
                region,
                matched_upto(lookups, region, ok_names(pages).len()),
                ok_names(pages).len(),
            ),
        ),
{
    lemma_strict_lines_matched(ok_names(pages), lookups, region, ok_names(pages).len());
}

/// When the enumeration fails on a page and no lookup before it fails,
/// the pass surfaces that page's failure as the uniform error and no
/// summary: the lines printed are those owed to the pages before it.
pub proof fn lemma_page_failure_aborts(
    strict: bool,
    region: Seq<char>,
    pages: Seq<PageResult>,
    lookups: Seq<LookupResult>,
    lines: Seq<Seq<char>>,
    outcome: Result<Seq<char>, Seq<char>>,
)
    requires
        listing_post(strict, region, pages, lookups, lines, outcome),
        page_cut(pages, pages.len()) < pages.len(),
        strict ==> lookup_cut(lookups, ok_names(pages).len()) == ok_names(pages).len(),
    ensures
        outcome == Result::<Seq<char>, Seq<char>>::Err(
            failure_text(pages[page_cut(pages, pages.len()) as int]->Failure_0),
        ),
        lines == if strict {
            strict_lines(ok_names(pages), lookups, region, ok_names(pages).len())
        } else {
            ok_names(pages)
        },
{
}

/// What stands before the first failed page is all that a pass can
/// print: the names yielded and the cut do not depend on that page or
/// on anything after it.
pub proof fn lemma_pages_after_failure_ignored(pages1: Seq<PageResult>, pages2: Seq<PageResult>, j: nat)
    requires
        j <= pages1.len(),
        j <= pages2.len(),
        forall|i: int| 0 <= i < j ==> pages1[i] == pages2[i],
    ensures
        flat_upto(pages1, j) == flat_upto(pages2, j),
        page_cut(pages1, j) == page_cut(pages2, j),
    decreases j,
{
    if j > 0 {
        lemma_pages_after_failure_ignored(pages1, pages2, (j - 1) as nat);
    }
}

/// When a lookup fails, the pass surfaces that lookup's failure as the
/// uniform error and no summary: the lines printed are those owed to
/// the buckets before it.
pub proof fn lemma_lookup_failure_aborts(
    region: Seq<char>,
    pages: Seq<PageResult>,
    lookups: Seq<LookupResult>,
    lines: Seq<Seq<char>>,
    outcome: Result<Seq<char>, Seq<char>>,
)
    requires
        listing_post(true, region, pages, lookups, lines, outcome),
        lookup_cut(lookups, ok_names(pages).len()) < ok_names(pages).len(),
    ensures
        outcome == Result::<Seq<char>, Seq<char>>::Err(
            failure_text(lookups[lookup_cut(lookups, ok_names(pages).len()) as int]->Failure_0),
        ),
        lines == strict_lines(
            ok_names(pages),
            lookups,
            region,
            lookup_cut(lookups, ok_names(pages).len()),
        ),
{
}

/// No bucket after a failed lookup is processed: what a strict pass
/// prints up to the failure does not depend on the buckets or the
/// lookup answers from the failure onward.
pub proof fn lemma_no_processing_after_failure(
    names1: Seq<Seq<char>>,
    names2: Seq<Seq<char>>,
    lookups1: Seq<LookupResult>,
    lookups2: Seq<LookupResult>,
    region: Seq<char>,
    n: nat,
)
    requires
        forall|i: int| 0 <= i < n ==> names1[i] == names2[i],
        forall|i: int| 0 <= i < n ==> lookups1[i] == lookups2[i],
    ensures
        strict_lines(names1, lookups1, region, n) == strict_lines(names2, lookups2, region, n),
        matched_upto(lookups1, region, n) == matched_upto(lookups2, region, n),
        lookup_cut(lookups1, n) == lookup_cut(lookups2, n),
    decreases n,
{
    if n > 0 {
        lemma_no_processing_after_failure(
            names1,
            names2,
            lookups1,
            lookups2,
            region,
            (n - 1) as nat,
        );
    }
}

/// Two passes over the same collaborator responses produce the same
/// lines and the same outcome: the listing is a function of what the
/// backing store holds.
pub proof fn lemma_listing_idempotent(
    strict: bool,
    region: Seq<char>,
    pages: Seq<PageResult>,
    lookups: Seq<LookupResult>,
    lines1: Seq<Seq<char>>,
    lines2: Seq<Seq<char>>,
    outcome1: Result<Seq<char>, Seq<char>>,
    outcome2: Result<Seq<char>, Seq<char>>,
)
    requires
        listing_post(strict, region, pages, lookups, lines1, outcome1),
        listing_post(strict, region, pages, lookups, lines2, outcome2),
    ensures
        lines1 == lines2,
        outcome1 == outcome2,
{
}

} // verus!
