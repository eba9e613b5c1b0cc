use zfskit::error::ZfsError;
use zfskit::resume_token::{decode_args, finish_decode, parse_hex_u64, parse_nvlist_output, ResumeTokenError};

#[test]
fn parse_nvlist_with_fromguid() {
    let text = "resume token contents:\n\
                nvlist version: 0\n\
                \tobject = 0x2\n\
                \toffset = 0xc0000\n\
                \tbytes = 0xe1488\n\
                \ttoguid = 0x9d03e683bc717fa6\n\
                \tfromguid = 0x123456789abcdef0\n\
                \ttoname = tank/data@snap2\n";
    let r = parse_nvlist_output(text, "tok").unwrap();
    assert_eq!(r.to_guid, 0x9d03e683bc717fa6);
    assert_eq!(r.from_guid, Some(0x123456789abcdef0));
}

#[test]
fn parse_nvlist_fixture() {
    let text = "resume token contents:\n\
                nvlist version: 0\n\
                \tobject = 0x24\n\
                \toffset = 0x0\n\
                \tbytes = 0x2a48\n\
                \ttoguid = 0xd3b96c8266d7cfe6\n\
                \ttoname = tank/data/home@snap1\n\
                full send of tank/data/home@snap1 estimated size is 32.5K\n\
                total estimated size is 32.5K\n";
    let result = parse_nvlist_output(text, "1-tok").unwrap();
    assert_eq!(result.to_name, "tank/data/home@snap1");
    assert_eq!(result.to_guid, 0xd3b96c8266d7cfe6);
    assert_eq!(result.from_guid, None);
    assert_eq!(result.bytes_received, 0x2a48);
    assert_eq!(result.token, "1-tok");
}

#[test]
fn parse_hex_valid() {
    assert_eq!(parse_hex_u64("0x2a48", "bytes").unwrap(), 0x2a48);
    assert_eq!(parse_hex_u64("0x0", "offset").unwrap(), 0);
    assert_eq!(
        parse_hex_u64("0xd3b96c8266d7cfe6", "toguid").unwrap(),
        0xd3b96c8266d7cfe6
    );
}

#[test]
fn parse_hex_invalid() {
    let err = parse_hex_u64("not-hex", "toguid").unwrap_err();
    assert!(matches!(err, ResumeTokenError::InvalidHex { .. }));
}

#[test]
fn parse_hex_edges() {
    assert_eq!(parse_hex_u64("0X1F", "bytes").unwrap(), 0x1f);
    assert_eq!(parse_hex_u64("ff", "bytes").unwrap(), 255);
    assert!(parse_hex_u64("0x", "bytes").is_err());
    assert!(parse_hex_u64("0x10000000000000000", "bytes").is_err());
    let ResumeTokenError::InvalidHex { field, value } = parse_hex_u64("0xzz", "toguid").unwrap_err() else {
        panic!("expected InvalidHex");
    };
    assert_eq!(field, "toguid");
    assert_eq!(value, "0xzz");
}

#[test]
fn parse_missing_field() {
    let err =
        parse_nvlist_output("resume token contents:\nnvlist version: 0\n", "tok").unwrap_err();
    assert!(matches!(
        err,
        ResumeTokenError::MissingField { field: "toname" }
    ));
}

#[test]
fn parse_missing_fields_in_order() {
    let err = parse_nvlist_output("\ttoname = t@s\n", "tok").unwrap_err();
    assert!(matches!(err, ResumeTokenError::MissingField { field: "toguid" }));
    let err = parse_nvlist_output("\ttoname = t@s\n\ttoguid = 0x1\n", "tok").unwrap_err();
    assert!(matches!(err, ResumeTokenError::MissingField { field: "bytes" }));
    let err = parse_nvlist_output("\ttoname = t@s\n\ttoguid = 0x1\n\tfromguid = q\n\tbytes = 0x2\n", "tok")
        .unwrap_err();
    assert!(matches!(err, ResumeTokenError::InvalidHex { field: "fromguid", .. }));
}

#[test]
fn decode_command_and_outcome() {
    assert_eq!(decode_args("1-abc"), vec!["send", "-nvt", "1-abc"]);
    let err = finish_decode(false, Some(1), "", "permission denied\n", "1-abc").unwrap_err();
    assert!(matches!(err, ResumeTokenError::CommandFailed(ZfsError::PermissionDenied)));
    let ok = finish_decode(true, Some(0), "\ttoname = t@s\n\ttoguid = 0x1\n\tbytes = 0x2\n", "", "1-abc")
        .unwrap();
    assert_eq!(ok.bytes_received, 2);
}
