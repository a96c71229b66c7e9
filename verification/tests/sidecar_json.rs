use gtakeout::errors::ProcessError;
use gtakeout::sidecar::read_sidecar_timestamp;

#[test]
fn reads_timestamp_member() {
    let doc = "{\"photoTakenTime\":{\"timestamp\":\"1511480066\"}}";
    assert_eq!(read_sidecar_timestamp(doc), Ok(String::from("1511480066")));
}

#[test]
fn ignores_other_members() {
    let doc = "{\"title\":\"IMG\",\"photoTakenTime\":{\"formatted\":\"x\",\"timestamp\":\"7\"},\"n\":1}";
    assert_eq!(read_sidecar_timestamp(doc), Ok(String::from("7")));
}

#[test]
fn rejects_invalid_json() {
    assert_eq!(
        read_sidecar_timestamp("not json"),
        Err(ProcessError::SidecarReadOrParseError)
    );
    assert_eq!(
        read_sidecar_timestamp("{\"photoTakenTime\":"),
        Err(ProcessError::SidecarReadOrParseError)
    );
}

#[test]
fn rejects_missing_or_non_string_member() {
    assert_eq!(
        read_sidecar_timestamp("{}"),
        Err(ProcessError::SidecarReadOrParseError)
    );
    assert_eq!(
        read_sidecar_timestamp("{\"photoTakenTime\":{}}"),
        Err(ProcessError::SidecarReadOrParseError)
    );
    // A numeric timestamp is not the string the schema asks for.
    assert_eq!(
        read_sidecar_timestamp("{\"photoTakenTime\":{\"timestamp\":1511480066}}"),
        Err(ProcessError::SidecarReadOrParseError)
    );
}
