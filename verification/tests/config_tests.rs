use polyqd::config::{Config, SpecDims};
use polyqd::errors::PipelineError;

fn dims(dx: &str, dy: &str, dz: &str) -> SpecDims {
    SpecDims { dx: dx.to_owned(), dy: dy.to_owned(), dz: dz.to_owned() }
}

fn sample_config() -> Config {
    Config { dims: dims("1", "2.5", "0.75"), n: "50".to_owned(), morpho: "graingrowth".to_owned() }
}

#[test]
fn encode_is_exact() {
    let cfg = sample_config();
    assert_eq!(
        cfg.to_json(),
        "{\"dims\":{\"dx\":1,\"dy\":2.5,\"dz\":0.75},\"n\":\"50\",\"morpho\":\"graingrowth\"}"
    );
}

#[test]
fn round_trip_gives_the_specification_back() {
    let cfg = sample_config();
    let text = cfg.to_json();
    let back = Config::from_json(&text).unwrap();
    assert_eq!(back, cfg);
}

#[test]
fn round_trip_with_empty_morpho_and_spaces() {
    let cfg = Config {
        dims: dims("10", "0.001", "3.25"),
        n: "from_morpho(diameq:lognormal(1,0.35))".to_owned(),
        morpho: "".to_owned(),
    };
    let back = Config::from_json(&cfg.to_json()).unwrap();
    assert_eq!(back, cfg);
}

#[test]
fn malformed_text_is_rejected() {
    assert_eq!(Config::from_json(""), Err(PipelineError::ConfigMalformed));
    assert_eq!(Config::from_json("not structured at all"), Err(PipelineError::ConfigMalformed));
    assert_eq!(
        Config::from_json("{\"dims\":{\"dx\":1,\"dy\":1,\"dz\":1},\"n\":\"50\",\"morpho\":\"g\""),
        Err(PipelineError::ConfigMalformed)
    );
}

#[test]
fn zero_dimension_is_rejected_on_load() {
    let text = "{\"dims\":{\"dx\":0,\"dy\":1,\"dz\":1},\"n\":\"50\",\"morpho\":\"g\"}";
    assert_eq!(Config::from_json(text), Err(PipelineError::ConfigMalformed));
}

#[test]
fn empty_grain_count_is_rejected_on_load() {
    let text = "{\"dims\":{\"dx\":1,\"dy\":1,\"dz\":1},\"n\":\"\",\"morpho\":\"g\"}";
    assert_eq!(Config::from_json(text), Err(PipelineError::ConfigMalformed));
}

#[test]
fn load_without_a_persisted_specification_is_not_found() {
    assert_eq!(Config::load(None), Err(PipelineError::ConfigNotFound));
}

#[test]
fn load_reads_the_persisted_specification() {
    let cfg = sample_config();
    let text = cfg.to_json();
    assert_eq!(Config::load(Some(&text)), Ok(cfg));
}

#[test]
fn dimension_validation() {
    assert!(SpecDims::new("1".to_owned(), "2.5".to_owned(), "0.75".to_owned()).is_ok());
    assert!(SpecDims::new("007".to_owned(), "1".to_owned(), "1".to_owned()).is_ok());
    assert_eq!(
        SpecDims::new("".to_owned(), "1".to_owned(), "1".to_owned()),
        Err(PipelineError::InvalidDimension("".to_owned()))
    );
    assert_eq!(
        SpecDims::new("1".to_owned(), ".5".to_owned(), "1".to_owned()),
        Err(PipelineError::InvalidDimension(".5".to_owned()))
    );
    assert_eq!(
        SpecDims::new("1".to_owned(), "1".to_owned(), "5.".to_owned()),
        Err(PipelineError::InvalidDimension("5.".to_owned()))
    );
    assert_eq!(
        SpecDims::new("1.2.3".to_owned(), "1".to_owned(), "1".to_owned()),
        Err(PipelineError::InvalidDimension("1.2.3".to_owned()))
    );
    assert_eq!(
        SpecDims::new("0".to_owned(), "1".to_owned(), "1".to_owned()),
        Err(PipelineError::InvalidDimension("0".to_owned()))
    );
    assert_eq!(
        SpecDims::new("0.0".to_owned(), "1".to_owned(), "1".to_owned()),
        Err(PipelineError::InvalidDimension("0.0".to_owned()))
    );
}

#[test]
fn persisted_record_is_plain_json() {
    let cfg = sample_config();
    let v: serde_json::Value = serde_json::from_str(&cfg.to_json()).unwrap();
    assert_eq!(v["dims"]["dx"].as_f64(), Some(1.0));
    assert_eq!(v["dims"]["dy"].as_f64(), Some(2.5));
    assert_eq!(v["dims"]["dz"].as_f64(), Some(0.75));
    assert_eq!(v["n"].as_str(), Some("50"));
    assert_eq!(v["morpho"].as_str(), Some("graingrowth"));
}

#[test]
fn domain_descriptor_is_cube_of_the_extents() {
    let d = dims("1", "1", "1");
    assert_eq!(d.domain_descriptor(), "cube(1,1,1)");
    let d = dims("2.5", "0.75", "10");
    assert_eq!(d.domain_descriptor(), "cube(2.5,0.75,10)");
}
