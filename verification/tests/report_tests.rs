use soil_extract::error::Error;
use soil_extract::soil_report::parse_soil_report;

fn full_sample_json(additional: &str) -> String {
    format!(
        "{{\"ReportNumber\":\"R42\",\"SampledDate\":\"2024-03-05\",\"Samples\":[\
         {{\"SampleId\":\"S1\",\"LimeHistory\":\"limed 2020\",\"Crop1\":\"barley\",\
         \"Crop2\":\"grass\",\"Crop1LimeRecommendations\":\"none\",\
         \"Crop2LimeRecommendations\":\"2 t/ha\",\"pH\":6.5,\
         \"NpkFertilizerRecommendations\":\"18-6-12\",\"PhosphorusIndex\":3,\
         \"PotassiumIndex\":2,\"AdditionalTestResults\":{}}}]}}",
        additional
    )
}

#[test]
fn full_report_deserializes() {
    let text = full_sample_json(
        "{\"HmPercent\":5.2,\"WV\":0.9,\"CEC\":12,\"Mn-I\":4,\"Zn-I\":2,\"Cu-I\":1,\"S-I\":3}",
    );
    let rep = parse_soil_report(&text).expect("valid report");
    assert_eq!(rep.report_number, "R42");
    assert_eq!(rep.sampled_date, "2024-03-05");
    assert_eq!(rep.samples.len(), 1);
    let s = &rep.samples[0];
    assert_eq!(s.sample_id, "S1");
    assert_eq!(s.lime_history, "limed 2020");
    assert_eq!(s.crop1, "barley");
    assert_eq!(s.crop2, "grass");
    assert_eq!(s.crop1_lime_recommendations, "none");
    assert_eq!(s.crop2_lime_recommendations, "2 t/ha");
    assert_eq!(s.ph, "6.5");
    assert_eq!(s.npk_fertilizer_recommendations, "18-6-12");
    assert_eq!(s.phosphorus_index, 3);
    assert_eq!(s.potassium_index, 2);
    let a = &s.additional_test_results;
    assert_eq!(a.hm_percent.as_deref(), Some("5.2"));
    assert_eq!(a.wv.as_deref(), Some("0.9"));
    assert_eq!(a.cec.as_deref(), Some("12"));
    assert_eq!(a.mn_i, Some(4));
    assert_eq!(a.zn_i, Some(2));
    assert_eq!(a.cu_i, Some(1));
    assert_eq!(a.s_i, Some(3));
}

#[test]
fn missing_every_optional_field_still_succeeds() {
    let text = full_sample_json("{}");
    let rep = parse_soil_report(&text).expect("optional fields may all be absent");
    let a = &rep.samples[0].additional_test_results;
    assert_eq!(a.hm_percent, None);
    assert_eq!(a.wv, None);
    assert_eq!(a.cec, None);
    assert_eq!(a.mn_i, None);
    assert_eq!(a.zn_i, None);
    assert_eq!(a.cu_i, None);
    assert_eq!(a.s_i, None);
}

#[test]
fn null_optional_field_reads_as_absent() {
    let text = full_sample_json("{\"HmPercent\":null,\"Mn-I\":null}");
    let rep = parse_soil_report(&text).expect("null optional fields are absent");
    let a = &rep.samples[0].additional_test_results;
    assert_eq!(a.hm_percent, None);
    assert_eq!(a.mn_i, None);
}

#[test]
fn mistyped_optional_field_fails_the_record() {
    let text = full_sample_json("{\"HmPercent\":\"high\"}");
    assert!(matches!(parse_soil_report(&text), Err(Error::JsonError(_))));
}

#[test]
fn missing_report_number_is_schema_error() {
    let text = "{\"SampledDate\":\"2024-01-01\",\"Samples\":[]}";
    assert!(matches!(parse_soil_report(text), Err(Error::JsonError(_))));
}

#[test]
fn non_numeric_ph_is_schema_error() {
    let text = full_sample_json("{}").replace("6.5", "\"six and a half\"");
    assert!(matches!(parse_soil_report(&text), Err(Error::JsonError(_))));
}

#[test]
fn negative_index_is_schema_error() {
    let text = full_sample_json("{}").replace("\"PhosphorusIndex\":3", "\"PhosphorusIndex\":-3");
    assert!(matches!(parse_soil_report(&text), Err(Error::JsonError(_))));
}

#[test]
fn unknown_fields_are_ignored() {
    let text = "{\"ReportNumber\":\"R1\",\"SampledDate\":\"2024-01-01\",\"Samples\":[],\
                \"Lab\":\"somewhere\"}";
    let rep = parse_soil_report(text).expect("unknown fields are ignored");
    assert_eq!(rep.report_number, "R1");
    assert!(rep.samples.is_empty());
}

#[test]
fn duplicated_field_reads_by_first_occurrence() {
    let text = "{\"ReportNumber\":\"R1\",\"ReportNumber\":\"R2\",\
                \"SampledDate\":\"2024-01-01\",\"Samples\":[]}";
    let rep = parse_soil_report(text).expect("first occurrence wins");
    assert_eq!(rep.report_number, "R1");
}

#[test]
fn malformed_json_is_schema_error() {
    assert!(matches!(parse_soil_report("{\"ReportNumber\":"), Err(Error::JsonError(_))));
    assert!(matches!(parse_soil_report("not json at all"), Err(Error::JsonError(_))));
}
