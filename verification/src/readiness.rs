//! Listing readiness: how complete a listing's public record is.
//!
//! Eight weighted dimensions add up to a score out of one hundred;
//! the two heavyweight dimensions — a cover image and a complete fee
//! breakdown — are critical, and a listing missing either is blocked
//! from publishing.  The caller extracts the raw record's fields into
//! `ListingFields` (a fractional floor area only survives as the fact
//! that it was positive); the scoring itself is all here.

use vstd::prelude::*;

use crate::strings::{trim_of, trimmed};

verus! {

/// The fields of a listing record that readiness looks at.
pub struct ListingFields {
    pub cover_image_url: Option<String>,
    pub fee_breakdown_complete: Option<bool>,
    pub amenities_count: usize,
    pub bedrooms: Option<i64>,
    pub square_meters_positive: bool,
    pub available_from: Option<String>,
    pub minimum_lease_months: Option<i64>,
    pub description: Option<String>,
}

#[derive(Debug)]
pub struct ReadinessIssue {
    pub field: String,
    pub label: String,
    pub weight: u8,
    pub satisfied: bool,
    pub critical: bool,
}

#[derive(Debug)]
pub struct ReadinessReport {
    pub score: u8,
    pub issues: Vec<ReadinessIssue>,
    pub blocking: bool,
}

pub open spec fn nonblank(s: Option<String>) -> bool {
    s matches Some(v) && trimmed(v@).len() > 0
}

pub open spec fn has_cover(f: ListingFields) -> bool {
    nonblank(f.cover_image_url)
}

pub open spec fn fee_complete(f: ListingFields) -> bool {
    f.fee_breakdown_complete == Some(true)
}

pub open spec fn enough_amenities(f: ListingFields) -> bool {
    f.amenities_count >= 3
}

pub open spec fn has_bedrooms(f: ListingFields) -> bool {
    f.bedrooms matches Some(n) && n > 0
}

pub open spec fn has_area(f: ListingFields) -> bool {
    f.square_meters_positive
}

pub open spec fn has_available_from(f: ListingFields) -> bool {
    nonblank(f.available_from)
}

pub open spec fn has_minimum_lease(f: ListingFields) -> bool {
    f.minimum_lease_months matches Some(n) && n > 0
}

pub open spec fn has_description(f: ListingFields) -> bool {
    nonblank(f.description)
}

/// The readiness score out of one hundred.
pub open spec fn readiness_score(f: ListingFields) -> int {
    (if has_cover(f) {
        25int
    } else {
        0int
    }) + (if fee_complete(f) {
        25int
    } else {
        0int
    }) + (if enough_amenities(f) {
        15int
    } else {
        0int
    }) + (if has_bedrooms(f) {
        10int
    } else {
        0int
    }) + (if has_area(f) {
        10int
    } else {
        0int
    }) + (if has_available_from(f) {
        5int
    } else {
        0int
    }) + (if has_minimum_lease(f) {
        5int
    } else {
        0int
    }) + (if has_description(f) {
        5int
    } else {
        0int
    })
}

/// A listing is blocked from publishing while a critical dimension is
/// unsatisfied.
pub open spec fn readiness_blocking(f: ListingFields) -> bool {
    !has_cover(f) || !fee_complete(f)
}

pub open spec fn issue_is(issue: ReadinessIssue, field: Seq<char>, weight: u8, satisfied: bool, critical: bool) -> bool {
    issue.field@ == field && issue.weight == weight && issue.satisfied == satisfied
        && issue.critical == critical
}

fn nonblank_exec(s: &Option<String>) -> (r: bool)
    ensures
        r == nonblank(*s),
{
    match s {
        Some(v) => trim_of(v.as_str()).unicode_len() > 0,
        None => false,
    }
}

/// The full readiness computation: a detailed report over all eight
/// dimensions, with the exact weights and the blocking verdict.
pub fn compute_readiness_report(fields: &ListingFields) -> (report: ReadinessReport)
    ensures
        report.score == readiness_score(*fields),
        report.blocking == readiness_blocking(*fields),
        report.issues@.len() == 8,
        issue_is(report.issues@[0], "cover_image"@, 25, has_cover(*fields), true),
        issue_is(report.issues@[1], "fee_lines"@, 25, fee_complete(*fields), true),
        issue_is(report.issues@[2], "amenities"@, 15, enough_amenities(*fields), false),
        issue_is(report.issues@[3], "bedrooms"@, 10, has_bedrooms(*fields), false),
        issue_is(report.issues@[4], "square_meters"@, 10, has_area(*fields), false),
        issue_is(report.issues@[5], "available_from"@, 5, has_available_from(*fields), false),
        issue_is(report.issues@[6], "minimum_lease"@, 5, has_minimum_lease(*fields), false),
        issue_is(report.issues@[7], "description"@, 5, has_description(*fields), false),
{
    let cover = nonblank_exec(&fields.cover_image_url);
    let fee = match fields.fee_breakdown_complete {
        Some(b) => b,
        None => false,
    };
    let amenities = fields.amenities_count >= 3;
    let bedrooms = match fields.bedrooms {
        Some(n) => n > 0,
        None => false,
    };
    let area = fields.square_meters_positive;
    let available = nonblank_exec(&fields.available_from);
    let lease = match fields.minimum_lease_months {
        Some(n) => n > 0,
        None => false,
    };
    let description = nonblank_exec(&fields.description);

    let mut issues: Vec<ReadinessIssue> = Vec::new();
    issues.push(
        ReadinessIssue {
            field: String::from_str("cover_image"),
            label: String::from_str("Cover Image"),
            weight: 25,
            satisfied: cover,
            critical: true,
        },
    );
    issues.push(
        ReadinessIssue {
            field: String::from_str("fee_lines"),
            label: String::from_str("Fee Breakdown"),
            weight: 25,
            satisfied: fee,
            critical: true,
        },
    );
    issues.push(
        ReadinessIssue {
            field: String::from_str("amenities"),
            label: String::from_str("Amenities"),
            weight: 15,
            satisfied: amenities,
            critical: false,
        },
    );
    issues.push(
        ReadinessIssue {
            field: String::from_str("bedrooms"),
            label: String::from_str("Bedrooms"),
            weight: 10,
            satisfied: bedrooms,
            critical: false,
        },
    );
    issues.push(
        ReadinessIssue {
            field: String::from_str("square_meters"),
            label: String::from_str("Area (m²)"),
            weight: 10,
            satisfied: area,
            critical: false,
        },
    );
    issues.push(
        ReadinessIssue {
            field: String::from_str("available_from"),
            label: String::from_str("Available From"),
            weight: 5,
            satisfied: available,
            critical: false,
        },
    );
    issues.push(
        ReadinessIssue {
            field: String::from_str("minimum_lease"),
            label: String::from_str("Minimum Lease"),
            weight: 5,
            satisfied: lease,
            critical: false,
        },
    );
    issues.push(
        ReadinessIssue {
            field: String::from_str("description"),
            label: String::from_str("Description"),
            weight: 5,
            satisfied: description,
            critical: false,
        },
    );

    let mut score: u8 = 0;
    if cover {
        score = score + 25;
    }
    if fee {
        score = score + 25;
    }
    if amenities {
        score = score + 15;
    }
    if bedrooms {
        score = score + 10;
    }
    if area {
        score = score + 10;
    }
    if available {
        score = score + 5;
    }
    if lease {
        score = score + 5;
    }
    if description {
        score = score + 5;
    }

    let blocking = !cover || !fee;
    ReadinessReport { score, issues, blocking }
}

/// The fields of the issues not yet satisfied, in report order.
pub open spec fn unsatisfied_fields(issues: Seq<ReadinessIssue>) -> Seq<Seq<char>>
    decreases issues.len(),
{
    if issues.len() == 0 {
        Seq::empty()
    } else {
        unsatisfied_fields(issues.drop_last()) + (if issues.last().satisfied {
            Seq::empty()
        } else {
            seq![issues.last().field@]
        })
    }
}

/// The names of the dimensions a listing still misses, in report
/// order.
pub open spec fn summary_fields(f: ListingFields) -> Seq<Seq<char>> {
    (if has_cover(f) {
        Seq::empty()
    } else {
        seq!["cover_image"@]
    }) + (if fee_complete(f) {
        Seq::empty()
    } else {
        seq!["fee_lines"@]
    }) + (if enough_amenities(f) {
        Seq::empty()
    } else {
        seq!["amenities"@]
    }) + (if has_bedrooms(f) {
        Seq::empty()
    } else {
        seq!["bedrooms"@]
    }) + (if has_area(f) {
        Seq::empty()
    } else {
        seq!["square_meters"@]
    }) + (if has_available_from(f) {
        Seq::empty()
    } else {
        seq!["available_from"@]
    }) + (if has_minimum_lease(f) {
        Seq::empty()
    } else {
        seq!["minimum_lease"@]
    }) + (if has_description(f) {
        Seq::empty()
    } else {
        seq!["description"@]
    })
}

/// The compact summary: the score and the names of every dimension
/// still unsatisfied.
pub fn readiness_summary(fields: &ListingFields) -> (r: (u32, Vec<String>))
    ensures
        r.0 == readiness_score(*fields),
        r.1@.map_values(|f: String| f@) == summary_fields(*fields),
{
    let report = compute_readiness_report(fields);
    let mut blocking: Vec<String> = Vec::new();
    let n = report.issues.len();
    let mut i: usize = 0;
    while i < n
        invariant
            i <= n,
            n == report.issues@.len(),
            blocking@.map_values(|f: String| f@) =~= unsatisfied_fields(
                report.issues@.subrange(0, i as int),
            ),
        decreases n - i,
    {
        proof {
            assert(report.issues@.subrange(0, i + 1).drop_last() =~= report.issues@.subrange(
                0,
                i as int,
            ));
            assert(report.issues@.subrange(0, i + 1).last() == report.issues@[i as int]);
        }
        if !report.issues[i].satisfied {
            blocking.push(report.issues[i].field.clone());
        }
        i = i + 1;
    }
    proof {
        reveal_with_fuel(unsatisfied_fields, 9);
        assert(report.issues@.subrange(0, n as int) =~= report.issues@);
        assert(unsatisfied_fields(report.issues@) =~= summary_fields(*fields));
    }
    (report.score as u32, blocking)
}

} // verus!
