use vstd::prelude::*;
use crate::error::Error;
use crate::json::{JsonValue, JsonModel, model_of, member_models, model_seq, is_digit, is_number_token, check_number_token, is_digit_char, json_value_of, parse_json};
use crate::text::str_to_chars;

verus! {

/// The terminal typed record of one extraction run.
#[derive(Debug, Clone, PartialEq)]
pub struct SoilReport {
    pub report_number: String,
    pub sampled_date: String,
    pub samples: Vec<Sample>,
}

/// One soil sample result. The pH and the optional secondary measurements
/// keep their number tokens verbatim, so no precision is lost.
#[derive(Debug, Clone, PartialEq)]
pub struct Sample {
    pub sample_id: String,
    pub lime_history: String,
    pub crop1: String,
    pub crop2: String,
    pub crop1_lime_recommendations: String,
    pub crop2_lime_recommendations: String,
    pub ph: String,
    pub npk_fertilizer_recommendations: String,
    pub phosphorus_index: u32,
    pub potassium_index: u32,
    pub additional_test_results: AdditionalTestResults,
}

/// The optional secondary measurements. Each field is independently
/// optional: absence of one never invalidates the rest.
#[derive(Debug, Clone, PartialEq)]
pub struct AdditionalTestResults {
    pub hm_percent: Option<String>,
    pub wv: Option<String>,
    pub cec: Option<String>,
    pub mn_i: Option<u32>,
    pub zn_i: Option<u32>,
    pub cu_i: Option<u32>,
    pub s_i: Option<u32>,
}

/// Every number kept in the record is a valid number token.
pub open spec fn wf_additional(a: AdditionalTestResults) -> bool {
    &&& (a.hm_percent matches Some(t) ==> is_number_token(t@))
    &&& (a.wv matches Some(t) ==> is_number_token(t@))
    &&& (a.cec matches Some(t) ==> is_number_token(t@))
}

pub open spec fn wf_sample(s: Sample) -> bool {
    &&& is_number_token(s.ph@)
    &&& wf_additional(s.additional_test_results)
}

pub open spec fn wf_report(r: SoilReport) -> bool {
    forall|i: int| 0 <= i < r.samples@.len() ==> wf_sample(#[trigger] r.samples@[i])
}

/// The value under the first member with the given key, from position `i`
/// on. When a reply repeats a field, its first occurrence is read and the
/// later ones are passed over like any other unknown member, rather than
/// the record being rejected.
pub open spec fn obj_lookup_from(
    members: Seq<(Seq<char>, JsonModel)>,
    key: Seq<char>,
    i: int,
) -> Option<JsonModel>
    decreases members.len() - i,
{
    if !(0 <= i < members.len()) {
        None
    } else if members[i].0 == key {
        Some(members[i].1)
    } else {
        obj_lookup_from(members, key, i + 1)
    }
}

/// The value under the first member with the given key, if any.
pub open spec fn obj_lookup(members: Seq<(Seq<char>, JsonModel)>, key: Seq<char>) -> Option<
    JsonModel,
> {
    obj_lookup_from(members, key, 0)
}

/// A required text field: present and a string.
pub open spec fn req_text(m: Seq<(Seq<char>, JsonModel)>, key: Seq<char>) -> Option<Seq<char>> {
    match obj_lookup(m, key) {
        Some(jv) => match jv {
            JsonModel::Text(s) => Some(s),
            _ => None,
        },
        None => None,
    }
}

/// A required numeric field: present, a number, and a valid token.
pub open spec fn req_number(m: Seq<(Seq<char>, JsonModel)>, key: Seq<char>) -> Option<Seq<char>> {
    match obj_lookup(m, key) {
        Some(jv) => match jv {
            JsonModel::Number(t) => if is_number_token(t) {
                Some(t)
            } else {
                None
            },
            _ => None,
        },
        None => None,
    }
}

/// The numeric value of a token of plain digits, when it fits.
pub open spec fn digits_val(t: Seq<char>) -> nat
    decreases t.len(),
{
    if t.len() == 0 {
        0
    } else {
        (digits_val(t.drop_last()) * 10 + ((t[t.len() - 1] as u32) - 48)) as nat
    }
}

/// The token is one or more decimal digits.
pub open spec fn all_digits(t: Seq<char>) -> bool {
    t.len() > 0 && forall|i: int| 0 <= i < t.len() ==> is_digit(#[trigger] t[i])
}

/// A non-negative integer read from a token of plain digits.
pub open spec fn token_u32(t: Seq<char>) -> Option<u32> {
    if all_digits(t) && digits_val(t) <= 0xFFFF_FFFF {
        Some(digits_val(t) as u32)
    } else {
        None
    }
}

/// A required non-negative integer field.
pub open spec fn req_u32(m: Seq<(Seq<char>, JsonModel)>, key: Seq<char>) -> Option<u32> {
    match obj_lookup(m, key) {
        Some(jv) => match jv {
            JsonModel::Number(t) => token_u32(t),
            _ => None,
        },
        None => None,
    }
}

/// An optional numeric field: absent or null stands for no value; a number
/// yields its token; any other shape is a schema fault (the outer `None`).
pub open spec fn opt_number(m: Seq<(Seq<char>, JsonModel)>, key: Seq<char>) -> Option<
    Option<Seq<char>>,
> {
    match obj_lookup(m, key) {
        None => Some(None),
        Some(jv) => match jv {
            JsonModel::Null => Some(None),
            JsonModel::Number(t) => if is_number_token(t) {
                Some(Some(t))
            } else {
                None
            },
            _ => None,
        },
    }
}

/// An optional non-negative integer field, with the same shape policy.
pub open spec fn opt_u32(m: Seq<(Seq<char>, JsonModel)>, key: Seq<char>) -> Option<Option<u32>> {
    match obj_lookup(m, key) {
        None => Some(None),
        Some(jv) => match jv {
            JsonModel::Null => Some(None),
            JsonModel::Number(t) => match token_u32(t) {
                Some(n) => Some(Some(n)),
                None => None,
            },
            _ => None,
        },
    }
}

/// The view of an optional string.
pub open spec fn view_opt(o: Option<String>) -> Option<Seq<char>> {
    match o {
        Some(s) => Some(s@),
        None => None,
    }
}

/// The secondary-measurement object has every field in an accepted shape.
pub open spec fn additional_ok(m: Seq<(Seq<char>, JsonModel)>) -> bool {
    &&& opt_number(m, "HmPercent"@) is Some
    &&& opt_number(m, "WV"@) is Some
    &&& opt_number(m, "CEC"@) is Some
    &&& opt_u32(m, "Mn-I"@) is Some
    &&& opt_u32(m, "Zn-I"@) is Some
    &&& opt_u32(m, "Cu-I"@) is Some
    &&& opt_u32(m, "S-I"@) is Some
}

/// The record field by field equals what the object holds.
pub open spec fn additional_matches(
    a: AdditionalTestResults,
    m: Seq<(Seq<char>, JsonModel)>,
) -> bool {
    &&& opt_number(m, "HmPercent"@) == Some(view_opt(a.hm_percent))
    &&& opt_number(m, "WV"@) == Some(view_opt(a.wv))
    &&& opt_number(m, "CEC"@) == Some(view_opt(a.cec))
    &&& opt_u32(m, "Mn-I"@) == Some(a.mn_i)
    &&& opt_u32(m, "Zn-I"@) == Some(a.zn_i)
    &&& opt_u32(m, "Cu-I"@) == Some(a.cu_i)
    &&& opt_u32(m, "S-I"@) == Some(a.s_i)
}

/// One sample object holds every required field in the right shape.
pub open spec fn sample_ok(v: JsonModel) -> bool {
    match v {
        JsonModel::Object(m) => {
            &&& req_text(m, "SampleId"@) is Some
            &&& req_text(m, "LimeHistory"@) is Some
            &&& req_text(m, "Crop1"@) is Some
            &&& req_text(m, "Crop2"@) is Some
            &&& req_text(m, "Crop1LimeRecommendations"@) is Some
            &&& req_text(m, "Crop2LimeRecommendations"@) is Some
            &&& req_number(m, "pH"@) is Some
            &&& req_text(m, "NpkFertilizerRecommendations"@) is Some
            &&& req_u32(m, "PhosphorusIndex"@) is Some
            &&& req_u32(m, "PotassiumIndex"@) is Some
            &&& match obj_lookup(m, "AdditionalTestResults"@) {
                Some(jv) => match jv {
                    JsonModel::Object(m2) => additional_ok(m2),
                    _ => false,
                },
                None => false,
            }
        },
        _ => false,
    }
}

/// The sample record field by field equals what the object holds.
pub open spec fn sample_matches(s: Sample, v: JsonModel) -> bool {
    match v {
        JsonModel::Object(m) => {
            &&& req_text(m, "SampleId"@) == Some(s.sample_id@)
            &&& req_text(m, "LimeHistory"@) == Some(s.lime_history@)
            &&& req_text(m, "Crop1"@) == Some(s.crop1@)
            &&& req_text(m, "Crop2"@) == Some(s.crop2@)
            &&& req_text(m, "Crop1LimeRecommendations"@) == Some(s.crop1_lime_recommendations@)
            &&& req_text(m, "Crop2LimeRecommendations"@) == Some(s.crop2_lime_recommendations@)
            &&& req_number(m, "pH"@) == Some(s.ph@)
            &&& req_text(m, "NpkFertilizerRecommendations"@) == Some(
                s.npk_fertilizer_recommendations@,
            )
            &&& req_u32(m, "PhosphorusIndex"@) == Some(s.phosphorus_index)
            &&& req_u32(m, "PotassiumIndex"@) == Some(s.potassium_index)
            &&& match obj_lookup(m, "AdditionalTestResults"@) {
                Some(jv) => match jv {
                    JsonModel::Object(m2) => additional_matches(s.additional_test_results, m2),
                    _ => false,
                },
                None => false,
            }
        },
        _ => false,
    }
}

/// The top-level object holds the report fields in the right shape.
pub open spec fn report_ok(v: JsonModel) -> bool {
    match v {
        JsonModel::Object(m) => {
            &&& req_text(m, "ReportNumber"@) is Some
            &&& req_text(m, "SampledDate"@) is Some
            &&& match obj_lookup(m, "Samples"@) {
                Some(jv) => match jv {
                    JsonModel::Array(items) => forall|i: int|
                        0 <= i < items.len() ==> sample_ok(#[trigger] items[i]),
                    _ => false,
                },
                None => false,
            }
        },
        _ => false,
    }
}

/// The report record field by field equals what the object holds.
pub open spec fn report_matches(r: SoilReport, v: JsonModel) -> bool {
    match v {
        JsonModel::Object(m) => {
            &&& req_text(m, "ReportNumber"@) == Some(r.report_number@)
            &&& req_text(m, "SampledDate"@) == Some(r.sampled_date@)
            &&& match obj_lookup(m, "Samples"@) {
                Some(jv) => match jv {
                    JsonModel::Array(items) => r.samples@.len() == items.len() && forall|i: int|
                        0 <= i < items.len() ==> sample_matches(#[trigger] r.samples@[i], items[i]),
                    _ => false,
                },
                None => false,
            }
        },
        _ => false,
    }
}

/// The first member with the given key, if any.
fn lookup<'a>(members: &'a Vec<(String, JsonValue)>, key: &String) -> (r: Option<&'a JsonValue>)
    ensures
        match r {
            Some(jv) => obj_lookup(member_models(members@), key@) == Some(model_of(*jv)),
            None => obj_lookup(member_models(members@), key@) is None,
        },
{
    let ghost mm = member_models(members@);
    let mut i: usize = 0;
    while i < members.len()
        invariant
            i <= members@.len(),
            mm == member_models(members@),
            mm.len() == members@.len(),
            obj_lookup(mm, key@) == obj_lookup_from(mm, key@, i as int),
        decreases members@.len() - i,
    {
        proof {
            assert(mm[i as int] == (members@[i as int].0@, model_of(members@[i as int].1)));
        }
        if members[i].0 == *key {
            return Some(&members[i].1);
        }
        i = i + 1;
    }
    None
}

/// Reads a non-negative integer from a token of plain digits.
pub fn parse_u32_token(t: &str) -> (r: Option<u32>)
    ensures
        r == token_u32(t@),
{
    let v = str_to_chars(t);
    if v.len() == 0 {
        return None;
    }
    let mut i: usize = 0;
    let mut acc: u64 = 0;
    let mut big = false;
    while i < v.len()
        invariant
            i <= v@.len(),
            v@ == t@,
            v@.len() > 0,
            forall|k: int| 0 <= k < i ==> is_digit(#[trigger] v@[k]),
            !big ==> acc == digits_val(t@.subrange(0, i as int)) && acc <= 0xFFFF_FFFF,
            big ==> digits_val(t@.subrange(0, i as int)) > 0xFFFF_FFFF,
        decreases v@.len() - i,
    {
        let c = v[i];
        if !is_digit_char(c) {
            proof {
                assert(!is_digit(t@[i as int]));
                assert(!all_digits(t@));
            }
            return None;
        }
        let d = (c as u32) - 48;
        proof {
            assert(t@.subrange(0, i + 1 as int).drop_last() =~= t@.subrange(0, i as int));
            assert(t@.subrange(0, i + 1 as int).last() == t@[i as int]);
        }
        if big {
            proof {
                let prev = digits_val(t@.subrange(0, i as int));
                assert(digits_val(t@.subrange(0, i + 1 as int)) == (prev * 10 + ((t@[i as int]
                    as u32) - 48)) as nat);
                assert(prev * 10 >= prev);
            }
        } else {
            let acc2 = acc * 10 + (d as u64);
            if acc2 > 0xFFFF_FFFF {
                big = true;
            } else {
                acc = acc2;
            }
        }
        i = i + 1;
    }
    proof {
        assert(t@.subrange(0, v@.len() as int) =~= t@);
        assert(all_digits(t@));
    }
    if big {
        None
    } else {
        Some(acc as u32)
    }
}

/// A required text field, or nothing when it is absent or not a string.
fn get_text(members: &Vec<(String, JsonValue)>, key: &String) -> (r: Option<String>)
    ensures
        match r {
            Some(s) => req_text(member_models(members@), key@) == Some(s@),
            None => req_text(member_models(members@), key@) is None,
        },
{
    match lookup(members, key) {
        Some(jv) => match jv {
            JsonValue::Text(s) => Some(s.clone()),
            _ => None,
        },
        None => None,
    }
}

/// A required numeric field's token, or nothing when absent or malformed.
fn get_number(members: &Vec<(String, JsonValue)>, key: &String) -> (r: Option<String>)
    ensures
        match r {
            Some(s) => req_number(member_models(members@), key@) == Some(s@),
            None => req_number(member_models(members@), key@) is None,
        },
{
    match lookup(members, key) {
        Some(jv) => match jv {
            JsonValue::Number(t) => {
                if check_number_token(t.as_str()) {
                    Some(t.clone())
                } else {
                    None
                }
            },
            _ => None,
        },
        None => None,
    }
}

/// A required non-negative integer field.
fn get_u32(members: &Vec<(String, JsonValue)>, key: &String) -> (r: Option<u32>)
    ensures
        r == req_u32(member_models(members@), key@),
{
    match lookup(members, key) {
        Some(jv) => match jv {
            JsonValue::Number(t) => parse_u32_token(t.as_str()),
            _ => None,
        },
        None => None,
    }
}

/// An optional numeric field: `Err` marks a shape fault, `Ok(None)` absence.
fn get_opt_number(members: &Vec<(String, JsonValue)>, key: &String) -> (r: Result<
    Option<String>,
    (),
>)
    ensures
        match r {
            Ok(o) => opt_number(member_models(members@), key@) == Some(view_opt(o)),
            Err(_) => opt_number(member_models(members@), key@) is None,
        },
{
    match lookup(members, key) {
        None => Ok(None),
        Some(jv) => match jv {
            JsonValue::Null => Ok(None),
            JsonValue::Number(t) => {
                if check_number_token(t.as_str()) {
                    Ok(Some(t.clone()))
                } else {
                    Err(())
                }
            },
            _ => Err(()),
        },
    }
}

/// An optional non-negative integer field, with the same shape policy.
fn get_opt_u32(members: &Vec<(String, JsonValue)>, key: &String) -> (r: Result<Option<u32>, ()>)
    ensures
        match r {
            Ok(o) => opt_u32(member_models(members@), key@) == Some(o),
            Err(_) => opt_u32(member_models(members@), key@) is None,
        },
{
    match lookup(members, key) {
        None => Ok(None),
        Some(jv) => match jv {
            JsonValue::Null => Ok(None),
            JsonValue::Number(t) => match parse_u32_token(t.as_str()) {
                Some(n) => Ok(Some(n)),
                None => Err(()),
            },
            _ => Err(()),
        },
    }
}

/// Validates the secondary-measurement object and builds its record.
fn additional_from_json(v: &JsonValue) -> (r: Result<AdditionalTestResults, ()>)
    ensures
        match r {
            Ok(a) => (match model_of(*v) {
                JsonModel::Object(mm) => additional_ok(mm) && additional_matches(a, mm),
                _ => false,
            }) && wf_additional(a),
            Err(_) => match model_of(*v) {
                JsonModel::Object(mm) => !additional_ok(mm),
                _ => true,
            },
        },
{
    match v {
        JsonValue::Object(m) => {
            let hm_percent = match get_opt_number(m, &String::from_str("HmPercent")) {
                Ok(o) => o,
                Err(_) => {
                    return Err(());
                },
            };
            let wv = match get_opt_number(m, &String::from_str("WV")) {
                Ok(o) => o,
                Err(_) => {
                    return Err(());
                },
            };
            let cec = match get_opt_number(m, &String::from_str("CEC")) {
                Ok(o) => o,
                Err(_) => {
                    return Err(());
                },
            };
            let mn_i = match get_opt_u32(m, &String::from_str("Mn-I")) {
                Ok(o) => o,
                Err(_) => {
                    return Err(());
                },
            };
            let zn_i = match get_opt_u32(m, &String::from_str("Zn-I")) {
                Ok(o) => o,
                Err(_) => {
                    return Err(());
                },
            };
            let cu_i = match get_opt_u32(m, &String::from_str("Cu-I")) {
                Ok(o) => o,
                Err(_) => {
                    return Err(());
                },
            };
            let s_i = match get_opt_u32(m, &String::from_str("S-I")) {
                Ok(o) => o,
                Err(_) => {
                    return Err(());
                },
            };
            Ok(AdditionalTestResults { hm_percent, wv, cec, mn_i, zn_i, cu_i, s_i })
        },
        _ => Err(()),
    }
}

/// Validates one sample object and builds its record.
fn sample_from_json(v: &JsonValue) -> (r: Result<Sample, ()>)
    ensures
        match r {
            Ok(s) => sample_ok(model_of(*v)) && sample_matches(s, model_of(*v)) && wf_sample(s),
            Err(_) => !sample_ok(model_of(*v)),
        },
{
    match v {
        JsonValue::Object(m) => {
            let sample_id = match get_text(m, &String::from_str("SampleId")) {
                Some(s) => s,
                None => {
                    return Err(());
                },
            };
            let lime_history = match get_text(m, &String::from_str("LimeHistory")) {
                Some(s) => s,
                None => {
                    return Err(());
                },
            };
            let crop1 = match get_text(m, &String::from_str("Crop1")) {
                Some(s) => s,
                None => {
                    return Err(());
                },
            };
            let crop2 = match get_text(m, &String::from_str("Crop2")) {
                Some(s) => s,
                None => {
                    return Err(());
                },
            };
            let crop1_lime_recommendations = match get_text(
                m,
                &String::from_str("Crop1LimeRecommendations"),
            ) {
                Some(s) => s,
                None => {
                    return Err(());
                },
            };
            let crop2_lime_recommendations = match get_text(
                m,
                &String::from_str("Crop2LimeRecommendations"),
            ) {
                Some(s) => s,
                None => {
                    return Err(());
                },
            };
            let ph = match get_number(m, &String::from_str("pH")) {
                Some(s) => s,
                None => {
                    return Err(());
                },
            };
            let npk_fertilizer_recommendations = match get_text(
                m,
                &String::from_str("NpkFertilizerRecommendations"),
            ) {
                Some(s) => s,
                None => {
                    return Err(());
                },
            };
            let phosphorus_index = match get_u32(m, &String::from_str("PhosphorusIndex")) {
                Some(n) => n,
                None => {
                    return Err(());
                },
            };
            let potassium_index = match get_u32(m, &String::from_str("PotassiumIndex")) {
                Some(n) => n,
                None => {
                    return Err(());
                },
            };
            let additional = match lookup(m, &String::from_str("AdditionalTestResults")) {
                Some(jv) => match additional_from_json(jv) {
                    Ok(a) => a,
                    Err(_) => {
                        return Err(());
                    },
                },
                None => {
                    return Err(());
                },
            };
            Ok(
                Sample {
                    sample_id,
                    lime_history,
                    crop1,
                    crop2,
                    crop1_lime_recommendations,
                    crop2_lime_recommendations,
                    ph,
                    npk_fertilizer_recommendations,
                    phosphorus_index,
                    potassium_index,
                    additional_test_results: additional,
                },
            )
        },
        _ => Err(()),
    }
}

/// Validates the parsed JSON value against the report schema and builds the
/// typed record. Succeeds exactly when every required field is present with
/// the right type; optional secondary measurements default to absent.
#[verifier::loop_isolation(false)]
#[verifier::rlimit(60)]
pub fn report_from_json(v: &JsonValue) -> (r: Result<SoilReport, Error>)
    ensures
        match r {
            Ok(rep) => report_ok(model_of(*v)) && report_matches(rep, model_of(*v)) && wf_report(
                rep,
            ),
            Err(e) => !report_ok(model_of(*v)) && e matches Error::JsonError(_),
        },
{
    match v {
        JsonValue::Object(m) => {
            let report_number = match get_text(m, &String::from_str("ReportNumber")) {
                Some(s) => s,
                None => {
                    return Err(Error::JsonError(String::from_str("missing or invalid ReportNumber")));
                },
            };
            let sampled_date = match get_text(m, &String::from_str("SampledDate")) {
                Some(s) => s,
                None => {
                    return Err(Error::JsonError(String::from_str("missing or invalid SampledDate")));
                },
            };
            match lookup(m, &String::from_str("Samples")) {
                Some(jv) => match jv {
                    JsonValue::Array(items) => {
                        let mut samples: Vec<Sample> = Vec::new();
                        let mut i: usize = 0;
                        while i < items.len()
                            invariant
                                i <= items@.len(),
                                samples@.len() == i,
                                forall|k: int|
                                    0 <= k < i ==> sample_ok(
                                        #[trigger] model_seq(items@)[k],
                                    ) && sample_matches(samples@[k], model_seq(items@)[k])
                                        && wf_sample(samples@[k]),
                            decreases items@.len() - i,
                        {
                            match sample_from_json(&items[i]) {
                                Ok(s) => {
                                    proof {
                                        assert(model_seq(items@)[i as int] == model_of(
                                            items@[i as int],
                                        ));
                                    }
                                    samples.push(s);
                                },
                                Err(_) => {
                                    proof {
                                        assert(model_seq(items@)[i as int] == model_of(
                                            items@[i as int],
                                        ));
                                        assert(!sample_ok(model_seq(items@)[i as int]));
                                        assert(!report_ok(model_of(*v)));
                                    }
                                    return Err(
                                        Error::JsonError(String::from_str("invalid sample entry")),
                                    );
                                },
                            }
                            i = i + 1;
                        }
                        let rep = SoilReport { report_number, sampled_date, samples };
                        proof {
                            assert(forall|k: int|
                                0 <= k < items@.len() ==> #[trigger] model_seq(items@)[k]
                                    == model_of(items@[k]));
                            assert(report_ok(model_of(*v)));
                            assert(report_matches(rep, model_of(*v)));
                            assert(wf_report(rep));
                        }
                        Ok(rep)
                    },
                    _ => {
                        proof {
                            assert(!report_ok(model_of(*v)));
                        }
                        Err(Error::JsonError(String::from_str("Samples is not an array")))
                    },
                },
                None => {
                    proof {
                        assert(!report_ok(model_of(*v)));
                    }
                    Err(Error::JsonError(String::from_str("missing Samples")))
                },
            }
        },
        _ => {
            proof {
                assert(!report_ok(model_of(*v)));
            }
            Err(Error::JsonError(String::from_str("report is not an object")))
        },
    }
}

/// Law: the optional secondary measurements are independent — an object
/// holding none of them is still accepted, and every record read from it
/// has every optional field absent.
pub proof fn lemma_optional_fields_absent(m: Seq<(Seq<char>, JsonModel)>)
    requires
        obj_lookup(m, "HmPercent"@) is None,
        obj_lookup(m, "WV"@) is None,
        obj_lookup(m, "CEC"@) is None,
        obj_lookup(m, "Mn-I"@) is None,
        obj_lookup(m, "Zn-I"@) is None,
        obj_lookup(m, "Cu-I"@) is None,
        obj_lookup(m, "S-I"@) is None,
    ensures
        additional_ok(m),
        forall|a: AdditionalTestResults|
            #[trigger] additional_matches(a, m) ==> a.hm_percent is None && a.wv is None && a.cec
                is None && a.mn_i is None && a.zn_i is None && a.cu_i is None && a.s_i is None,
{
}

/// Law: a report object that lacks its required ReportNumber field is
/// rejected whole.
pub proof fn lemma_missing_report_number(v: JsonModel)
    requires
        match v {
            JsonModel::Object(m) => obj_lookup(m, "ReportNumber"@) is None,
            _ => true,
        },
    ensures
        !report_ok(v),
{
}

/// Law: a reply whose report object holds exactly a report number, a
/// sampled date, and an empty samples list is accepted, and every record
/// read from it carries exactly those fields — for all field contents.
pub proof fn lemma_minimal_report(m: Seq<(Seq<char>, JsonModel)>, num: Seq<char>, date: Seq<char>)
    requires
        m == seq![
            ("ReportNumber"@, JsonModel::Text(num)),
            ("SampledDate"@, JsonModel::Text(date)),
            ("Samples"@, JsonModel::Array(Seq::<JsonModel>::empty())),
        ],
    ensures
        report_ok(JsonModel::Object(m)),
        forall|rep: SoilReport|
            #[trigger] report_matches(rep, JsonModel::Object(m)) ==> rep.report_number@ == num
                && rep.sampled_date@ == date && rep.samples@.len() == 0,
{
    broadcast use vstd::string::group_string_axioms;

    reveal_strlit("ReportNumber");
    reveal_strlit("SampledDate");
    reveal_strlit("Samples");
    assert("ReportNumber"@.len() == 12);
    assert("SampledDate"@.len() == 11);
    assert("Samples"@.len() == 7);
    assert(m[0].0 != "SampledDate"@);
    assert(m[0].0 != "Samples"@);
    assert(m[1].0 != "Samples"@);
    assert(obj_lookup(m, "ReportNumber"@) == Some(JsonModel::Text(num)));
    assert(obj_lookup_from(m, "SampledDate"@, 0) == obj_lookup_from(m, "SampledDate"@, 1));
    assert(obj_lookup(m, "SampledDate"@) == Some(JsonModel::Text(date)));
    assert(obj_lookup_from(m, "Samples"@, 0) == obj_lookup_from(m, "Samples"@, 1));
    assert(obj_lookup_from(m, "Samples"@, 1) == obj_lookup_from(m, "Samples"@, 2));
    assert(obj_lookup(m, "Samples"@) == Some(JsonModel::Array(Seq::<JsonModel>::empty())));
}

/// Parses the extracted JSON text and validates it against the report
/// schema: the whole deserialization stage of the pipeline.
pub fn parse_soil_report(text: &str) -> (r: Result<SoilReport, Error>)
    ensures
        match r {
            Ok(rep) => {
                &&& json_value_of(text@) is Some
                &&& report_ok(json_value_of(text@).unwrap())
                &&& report_matches(rep, json_value_of(text@).unwrap())
                &&& wf_report(rep)
            },
            Err(e) => {
                &&& e matches Error::JsonError(_)
                &&& (json_value_of(text@) is None || !report_ok(json_value_of(text@).unwrap()))
            },
        },
{
    match parse_json(text) {
        Some(v) => report_from_json(&v),
        None => Err(Error::JsonError(String::from_str("reply is not valid JSON"))),
    }
}

} // verus!
