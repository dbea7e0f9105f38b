//! The HR source mapper.
//!
//! Copies staff information out of one HR record into the profile, stores
//! the raw record verbatim in the HR access-information envelope, and
//! censors job titles: a departmental management suffix collapses to the
//! canonical department form, and any other trailing numeral is stripped.
use vstd::prelude::*;

use crate::jsonval::{clone_json, jix, jm, json_get, json_str, jstr, JsonM, JsonVal};
use crate::schema::{
    AccessInformationProviderSubObject, AccessInformationProviderSubObjectM,
    AccessInformationValuesArray, AccessInformationValuesArrayM, Profile, ProfileM,
    StaffInformationValuesArray, StaffInformationValuesArrayM, StandardAttributeBoolean,
    StandardAttributeBooleanM, StandardAttributeString, StandardAttributeStringM,
};
use crate::text::{
    bytes_eq, concat2, ends_with, is_ascii_digit, is_suffix_of, sbytes, str_bytes, take_bytes,
};

verus! {

/// The string under `key` of record `h`, where there is one.
pub open spec fn jfs(h: JsonM, key: Seq<u8>) -> Option<Seq<u8>> {
    jstr(jix(h, key))
}

/// The bytes of `" Mgmt "`, the middle of the management marker.
pub open spec fn mgmt_pat() -> Seq<u8> {
    seq![32u8, 77u8, 103u8, 109u8, 116u8, 32u8]
}

/// The bytes of `": Mgmt "`: the marker's middle with its optional colon.
pub open spec fn colon_mgmt_pat() -> Seq<u8> {
    seq![58u8] + mgmt_pat()
}

/// The bytes of `"Management"`.
pub open spec fn dept_management() -> Seq<u8> {
    seq![77u8, 97u8, 110u8, 97u8, 103u8, 101u8, 109u8, 101u8, 110u8, 116u8]
}

/// The bytes of `"Engineering"`.
pub open spec fn dept_engineering() -> Seq<u8> {
    seq![69u8, 110u8, 103u8, 105u8, 110u8, 101u8, 101u8, 114u8, 105u8, 110u8, 103u8]
}

/// The bytes of `"Development"`.
pub open spec fn dept_development() -> Seq<u8> {
    seq![68u8, 101u8, 118u8, 101u8, 108u8, 111u8, 112u8, 109u8, 101u8, 110u8, 116u8]
}

/// The bytes of `" Management"`, the canonical replacement suffix.
pub open spec fn space_management() -> Seq<u8> {
    seq![32u8] + dept_management()
}

/// The length of the management marker ending `t`: `" Mgmt "` plus one
/// digit, preceded by an optional colon; zero when no marker ends `t`.
#[verifier::opaque]
pub open spec fn marker_len_m(t: Seq<u8>) -> int {
    if t.len() >= 8 && is_ascii_digit(t[t.len() - 1]) && t.subrange(t.len() - 8, t.len() - 1)
        == colon_mgmt_pat() {
        8
    } else if t.len() >= 7 && is_ascii_digit(t[t.len() - 1]) && t.subrange(
        t.len() - 7,
        t.len() - 1,
    ) == mgmt_pat() {
        7
    } else {
        0
    }
}

/// Does a departmental name immediately precede the marker?
#[verifier::opaque]
pub open spec fn dept_before_m(t: Seq<u8>, ml: int) -> bool {
    let head = t.take(t.len() - ml);
    is_suffix_of(dept_management(), head) || is_suffix_of(dept_engineering(), head)
        || is_suffix_of(dept_development(), head)
}

/// The censored form of a job title. A departmental management marker is
/// dropped entirely; a bare management marker becomes `" Management"`; any
/// other trailing space-and-digit is stripped; anything else is kept as is.
/// Best-effort normalization over free text, not a guarantee of coverage.
#[verifier::opaque]
pub open spec fn censor_title_m(t: Seq<u8>) -> Seq<u8> {
    let ml = marker_len_m(t);
    if ml > 0 && dept_before_m(t, ml) {
        t.take(t.len() - ml)
    } else if ml > 0 {
        t.take(t.len() - ml) + space_management()
    } else if t.len() >= 2 && t[t.len() - 2] == 32 && is_ascii_digit(t[t.len() - 1]) {
        t.take(t.len() - 2)
    } else {
        t
    }
}

/// Does `pat` stand at position `off` of `s`?
fn range_eq(s: &Vec<u8>, off: usize, pat: &Vec<u8>) -> (r: bool)
    requires
        off + pat@.len() <= s@.len(),
    ensures
        r <==> s@.subrange(off as int, off + pat@.len()) == pat@,
{
    let slen = s.len();
    let mut i: usize = 0;
    while i < pat.len()
        invariant
            i <= pat@.len(),
            slen == s@.len(),
            off + pat@.len() <= slen,
            forall|j: int| 0 <= j < i ==> s@[off + j] == pat@[j],
        decreases pat@.len() - i,
    {
        if s[off + i] != pat[i] {
            proof {
                assert(s@.subrange(off as int, off + pat@.len())[i as int] == s@[off + i]);
            }
            return false;
        }
        i += 1;
    }
    proof {
        assert(s@.subrange(off as int, off + pat@.len()) =~= pat@);
    }
    true
}

/// The length of the management marker ending `t`, zero when there is none.
fn marker_len(t: &Vec<u8>) -> (r: usize)
    ensures
        r as int == marker_len_m(t@),
{
    proof {
        reveal(marker_len_m);
    }
    if t.len() < 7 {
        return 0;
    }
    let last = t[t.len() - 1];
    if !(48 <= last && last <= 57) {
        return 0;
    }
    let colon_pat: Vec<u8> = vec![58u8, 32u8, 77u8, 103u8, 109u8, 116u8, 32u8];
    let plain_pat: Vec<u8> = vec![32u8, 77u8, 103u8, 109u8, 116u8, 32u8];
    proof {
        assert(colon_pat@ =~= colon_mgmt_pat());
        assert(plain_pat@ =~= mgmt_pat());
    }
    let colon_hit = t.len() >= 8 && range_eq(t, t.len() - 8, &colon_pat);
    proof {
        if t@.len() >= 8 {
            assert(t@.subrange(t@.len() - 8, t@.len() - 8 + colon_pat@.len()) =~= t@.subrange(
                t@.len() - 8,
                t@.len() - 1,
            ));
        }
    }
    if colon_hit {
        return 8;
    }
    let plain_hit = range_eq(t, t.len() - 7, &plain_pat);
    proof {
        assert(t@.subrange(t@.len() - 7, t@.len() - 7 + plain_pat@.len()) =~= t@.subrange(
            t@.len() - 7,
            t@.len() - 1,
        ));
    }
    if plain_hit {
        7
    } else {
        0
    }
}

/// Censor a job title, as [`censor_title_m`] describes.
pub fn censor_title(title: &Vec<u8>) -> (r: Vec<u8>)
    ensures
        r@ == censor_title_m(title@),
{
    proof {
        reveal(marker_len_m);
        reveal(dept_before_m);
        reveal(censor_title_m);
    }
    let ml = marker_len(title);
    if ml > 0 {
        let head = take_bytes(title, title.len() - ml);
        let d_management: Vec<u8> = vec![
            77u8,
            97u8,
            110u8,
            97u8,
            103u8,
            101u8,
            109u8,
            101u8,
            110u8,
            116u8,
        ];
        let d_engineering: Vec<u8> = vec![
            69u8,
            110u8,
            103u8,
            105u8,
            110u8,
            101u8,
            101u8,
            114u8,
            105u8,
            110u8,
            103u8,
        ];
        let d_development: Vec<u8> = vec![
            68u8,
            101u8,
            118u8,
            101u8,
            108u8,
            111u8,
            112u8,
            109u8,
            101u8,
            110u8,
            116u8,
        ];
        proof {
            assert(d_management@ =~= dept_management());
            assert(d_engineering@ =~= dept_engineering());
            assert(d_development@ =~= dept_development());
            assert(head@ =~= title@.take(title@.len() - marker_len_m(title@)));
        }
        if ends_with(&head, &d_management) || ends_with(&head, &d_engineering) || ends_with(
            &head,
            &d_development,
        ) {
            head
        } else {
            let repl: Vec<u8> = vec![
                32u8,
                77u8,
                97u8,
                110u8,
                97u8,
                103u8,
                101u8,
                109u8,
                101u8,
                110u8,
                116u8,
            ];
            proof {
                assert(repl@ =~= space_management());
            }
            concat2(&head, &repl)
        }
    } else if title.len() >= 2 && title[title.len() - 2] == 32 && 48 <= title[title.len() - 1]
        && title[title.len() - 1] <= 57 {
        let r = take_bytes(title, title.len() - 2);
        proof {
            assert(r@ =~= title@.take(title@.len() - 2));
        }
        r
    } else {
        crate::text::clone_bytes(title)
    }
}

/// The profile after the HR mapper: the raw record is stored verbatim in
/// the HR access-information envelope, and the staff-information payloads
/// are filled from the record's fields; source booleans are the literal
/// string `"TRUE"`, the staff flag is the presence of an employee
/// identifier, and the title is censored. Nothing else changes, and no
/// envelope metadata changes. This mapper never fails.
#[verifier::opaque]
pub open spec fn map_hris_m(p: ProfileM, h: JsonM) -> ProfileM {
    ProfileM {
        access_information: AccessInformationValuesArrayM {
            hris: AccessInformationProviderSubObjectM {
                values: h,
                ..p.access_information.hris
            },
            ..p.access_information
        },
        staff_information: StaffInformationValuesArrayM {
            cost_center: StandardAttributeStringM {
                value: jfs(h, sbytes("Cost_Center")),
                ..p.staff_information.cost_center
            },
            director: StandardAttributeBooleanM {
                value: jfs(h, sbytes("isDirectorOrAbove")) == Some(sbytes("TRUE")),
                ..p.staff_information.director
            },
            manager: StandardAttributeBooleanM {
                value: jfs(h, sbytes("IsManager")) == Some(sbytes("TRUE")),
                ..p.staff_information.manager
            },
            office_location: StandardAttributeStringM {
                value: jfs(h, sbytes("LocationDescription")),
                ..p.staff_information.office_location
            },
            staff: StandardAttributeBooleanM {
                value: jfs(h, sbytes("EmployeeID")) is Some,
                ..p.staff_information.staff
            },
            team: StandardAttributeStringM {
                value: jfs(h, sbytes("Team")),
                ..p.staff_information.team
            },
            title: StandardAttributeStringM {
                value: match jfs(h, sbytes("businessTitle")) {
                    Some(t) => Some(censor_title_m(t)),
                    None => None,
                },
                ..p.staff_information.title
            },
            worker_type: StandardAttributeStringM {
                value: jfs(h, sbytes("WorkerType")),
                ..p.staff_information.worker_type
            },
            wpr_desk_number: StandardAttributeStringM {
                value: jfs(h, sbytes("WPRDeskNumber")),
                ..p.staff_information.wpr_desk_number
            },
        },
        ..p
    }
}

/// Read the string under `key` of `h`, where there is one.
fn get_str_field(h: &JsonVal, key: &str) -> (r: Option<Vec<u8>>)
    ensures
        match r {
            Some(s) => jfs(jm(*h), sbytes(key)) == Some(s@),
            None => jfs(jm(*h), sbytes(key)) is None,
        },
{
    let k = str_bytes(key);
    match json_get(h, &k) {
        Some(v) => json_str(v),
        None => None,
    }
}

/// Apply the HR mapper to an accumulating profile.
#[verifier::rlimit(100)]
pub fn map_hris(p2: Profile, hris: &JsonVal) -> (r: Profile)
    ensures
        r@ == map_hris_m(p2@, jm(*hris)),
{
    let ghost p0 = p2@;
    let tru = str_bytes("TRUE");
    let director = match get_str_field(hris, "isDirectorOrAbove") {
        Some(b) => bytes_eq(&b, &tru),
        None => false,
    };
    let manager = match get_str_field(hris, "IsManager") {
        Some(b) => bytes_eq(&b, &tru),
        None => false,
    };
    let staff = match get_str_field(hris, "EmployeeID") {
        Some(_) => true,
        None => false,
    };
    let title = match get_str_field(hris, "businessTitle") {
        Some(t) => Some(censor_title(&t)),
        None => None,
    };
    let si = StaffInformationValuesArray {
        cost_center: p2.staff_information.cost_center.set_value(
            get_str_field(hris, "Cost_Center"),
        ),
        director: p2.staff_information.director.set_value(director),
        manager: p2.staff_information.manager.set_value(manager),
        office_location: p2.staff_information.office_location.set_value(
            get_str_field(hris, "LocationDescription"),
        ),
        staff: p2.staff_information.staff.set_value(staff),
        team: p2.staff_information.team.set_value(get_str_field(hris, "Team")),
        title: p2.staff_information.title.set_value(title),
        worker_type: p2.staff_information.worker_type.set_value(
            get_str_field(hris, "WorkerType"),
        ),
        wpr_desk_number: p2.staff_information.wpr_desk_number.set_value(
            get_str_field(hris, "WPRDeskNumber"),
        ),
    };
    let ai = AccessInformationValuesArray {
        hris: p2.access_information.hris.set_values(clone_json(hris)),
        ..p2.access_information
    };
    let r = Profile { access_information: ai, staff_information: si, ..p2 };
    proof {
        reveal(map_hris_m);
        let m = map_hris_m(p0, jm(*hris));
        assert(r@.access_information == m.access_information);
        assert(r@.staff_information == m.staff_information);
        assert(r@ == m);
    }
    r
}

} // verus!
