use upnp::device::{parse_description, DeviceDescription};
use upnp::discovery::{DiscoveryResult, Survey};
use upnp::error::{err_if_not_200, Error};
use upnp::scpd::{data_type_of, parse_scpd_text, DataType, Direction, ServiceSchema};
use upnp::service::{action_result, request_body, soap_action};
use upnp::url::{origin_of, resolve_url};
use upnp::xml::{escape_text, find_root, parse_u32, parse_xml, str_eq_ignore_case};

const DEVICE_DOC: &str = r#"<?xml version="1.0"?>
<root xmlns="urn:schemas-upnp-org:device-1-0">
  <specVersion><major>1</major><minor>0</minor></specVersion>
  <URLBase>http://192.168.1.5:1400/</URLBase>
  <device>
    <deviceType>urn:schemas-upnp-org:device:ZonePlayer:1</deviceType>
    <friendlyName>Living Room</friendlyName>
    <UDN>uuid:RINCON_1</UDN>
    <serviceList>
      <service>
        <serviceType>urn:schemas-upnp-org:service:AlarmClock:1</serviceType>
        <serviceId>urn:upnp-org:serviceId:AlarmClock</serviceId>
        <controlURL>/AlarmClock/Control</controlURL>
        <eventSubURL>/AlarmClock/Event</eventSubURL>
        <SCPDURL>/xml/AlarmClock1.xml</SCPDURL>
      </service>
      <service>
        <serviceType>urn:schemas-upnp-org:service:RenderingControl:1</serviceType>
        <serviceId>urn:upnp-org:serviceId:RenderingControl</serviceId>
        <controlURL>/upnp/control/RenderingControl1</controlURL>
        <eventSubURL>/upnp/event/RenderingControl1</eventSubURL>
        <SCPDURL>/xml/RenderingControl1.xml</SCPDURL>
      </service>
    </serviceList>
    <deviceList>
      <device>
        <deviceType>urn:schemas-upnp-org:device:MediaServer:1</deviceType>
        <friendlyName>Media Server</friendlyName>
        <UDN>uuid:RINCON_1_MS</UDN>
        <serviceList>
          <service>
            <serviceType>urn:schemas-upnp-org:service:ContentDirectory:1</serviceType>
            <serviceId>urn:upnp-org:serviceId:ContentDirectory</serviceId>
            <controlURL>http://10.0.0.2/cd/control</controlURL>
            <eventSubURL>cd/event</eventSubURL>
            <SCPDURL>/cd.xml</SCPDURL>
          </service>
        </serviceList>
      </device>
      <device>
        <deviceType>urn:schemas-upnp-org:device:MediaRenderer:1</deviceType>
        <friendlyName>Media Renderer</friendlyName>
        <UDN>uuid:RINCON_1_MR</UDN>
      </device>
    </deviceList>
  </device>
</root>"#;

const SCPD_DOC: &str = r#"<?xml version="1.0"?>
<scpd xmlns="urn:schemas-upnp-org:service-1-0">
  <actionList>
    <action>
      <name>GetVolume</name>
      <argumentList>
        <argument><name>InstanceID</name><direction>in</direction><relatedStateVariable>A_ARG_TYPE_InstanceID</relatedStateVariable></argument>
        <argument><name>Channel</name><direction>in</direction><relatedStateVariable>A_ARG_TYPE_Channel</relatedStateVariable></argument>
        <argument><name>CurrentVolume</name><direction>out</direction><relatedStateVariable>Volume</relatedStateVariable></argument>
      </argumentList>
    </action>
    <action>
      <name>ListPresets</name>
    </action>
  </actionList>
  <serviceStateTable>
    <stateVariable sendEvents="no"><name>A_ARG_TYPE_InstanceID</name><dataType>ui4</dataType></stateVariable>
    <stateVariable sendEvents="no">
      <name>A_ARG_TYPE_Channel</name><dataType>string</dataType>
      <allowedValueList><allowedValue>Master</allowedValue><allowedValue>LF</allowedValue></allowedValueList>
    </stateVariable>
    <stateVariable sendEvents="no">
      <name>Volume</name><dataType>ui2</dataType><defaultValue>10</defaultValue>
      <allowedValueRange><minimum>0</minimum><maximum>100</maximum><step>1</step></allowedValueRange>
    </stateVariable>
    <stateVariable sendEvents="no"><name>Vendor</name><dataType>x-vendor-type</dataType></stateVariable>
  </serviceStateTable>
</scpd>"#;

fn device() -> DeviceDescription {
    match parse_description(DEVICE_DOC, "http://192.168.1.5:1400/xml/device_description.xml") {
        Ok(d) => d,
        Err(_) => panic!("the device description should parse"),
    }
}

fn schema() -> ServiceSchema {
    match parse_scpd_text(SCPD_DOC) {
        Ok(s) => s,
        Err(_) => panic!("the schema should parse"),
    }
}

fn missing(r: Result<DeviceDescription, Error>) -> (String, String) {
    match r {
        Err(Error::MissingElement(p, c)) => (p, c),
        _ => panic!("expected a missing element"),
    }
}

#[test]
fn device_lists_keep_document_order() {
    let d = device();
    assert_eq!(d.friendly_name, "Living Room");
    assert_eq!(d.udn, "uuid:RINCON_1");
    assert_eq!(d.url_base, "http://192.168.1.5:1400/");
    assert_eq!(d.services.len(), 2);
    assert_eq!(d.services[0].service_type, "urn:schemas-upnp-org:service:AlarmClock:1");
    assert_eq!(d.services[1].service_type, "urn:schemas-upnp-org:service:RenderingControl:1");
    assert_eq!(d.embedded_devices.len(), 2);
    assert_eq!(d.embedded_devices[0].friendly_name, "Media Server");
    assert_eq!(d.embedded_devices[1].friendly_name, "Media Renderer");
    assert_eq!(d.embedded_devices[1].services.len(), 0);
    assert_eq!(d.embedded_devices[1].embedded_devices.len(), 0);
}

#[test]
fn service_urls_are_resolved_against_the_base() {
    let d = device();
    let cd = &d.embedded_devices[0].services[0];
    assert_eq!(cd.control_url, "http://10.0.0.2/cd/control");
    assert_eq!(cd.event_sub_url, "http://192.168.1.5:1400/cd/event");
    assert_eq!(cd.description_url, "http://192.168.1.5:1400/cd.xml");
}

#[test]
fn find_service_resolves_control_url() {
    let d = device();
    let s = d.find_service("urn:schemas-upnp-org:service:RenderingControl:1").unwrap();
    assert_eq!(s.control_url, "http://192.168.1.5:1400/upnp/control/RenderingControl1");
    assert_eq!(s.description_url, "http://192.168.1.5:1400/xml/RenderingControl1.xml");
}

#[test]
fn find_service_searches_embedded_devices() {
    let d = device();
    let s = d.find_service("urn:schemas-upnp-org:service:ContentDirectory:1").unwrap();
    assert_eq!(s.service_id, "urn:upnp-org:serviceId:ContentDirectory");
    assert!(d.find_service("urn:schemas-upnp-org:service:AVTransport:1").is_none());
}

#[test]
fn url_base_defaults_to_fetch_origin() {
    let doc = DEVICE_DOC.replace("<URLBase>http://192.168.1.5:1400/</URLBase>", "");
    let d = parse_description(&doc, "http://10.1.1.1:49152/desc.xml").ok().unwrap();
    assert_eq!(d.url_base, "http://10.1.1.1:49152");
    assert_eq!(d.services[0].control_url, "http://10.1.1.1:49152/AlarmClock/Control");
}

#[test]
fn missing_udn_is_named() {
    let doc = DEVICE_DOC.replace("<UDN>uuid:RINCON_1</UDN>", "");
    let (p, c) = missing(parse_description(&doc, "http://h/"));
    assert_eq!(p, "device");
    assert_eq!(c, "UDN");
}

#[test]
fn missing_friendly_name_is_named() {
    let doc = DEVICE_DOC.replace("<friendlyName>Living Room</friendlyName>", "");
    let (p, c) = missing(parse_description(&doc, "http://h/"));
    assert_eq!(p, "device");
    assert_eq!(c, "friendlyName");
}

#[test]
fn missing_device_type_is_named() {
    let doc = DEVICE_DOC.replace("<deviceType>urn:schemas-upnp-org:device:ZonePlayer:1</deviceType>", "");
    let (p, c) = missing(parse_description(&doc, "http://h/"));
    assert_eq!(p, "device");
    assert_eq!(c, "deviceType");
}

#[test]
fn fault_in_embedded_device_fails_whole_parse() {
    let doc = DEVICE_DOC.replace("<UDN>uuid:RINCON_1_MR</UDN>", "");
    let (p, c) = missing(parse_description(&doc, "http://h/"));
    assert_eq!(p, "device");
    assert_eq!(c, "UDN");
}

#[test]
fn missing_device_element() {
    let (p, c) = missing(parse_description("<root><specVersion/></root>", "http://h/"));
    assert_eq!(p, "root");
    assert_eq!(c, "device");
}

#[test]
fn malformed_description_is_xml_fault() {
    assert!(matches!(parse_description("<root><device>", "http://h/"), Err(Error::XmlMalformed)));
}

#[test]
fn action_response_yields_its_arguments() {
    let body = r#"<?xml version="1.0"?>
<s:Envelope xmlns:s="http://schemas.xmlsoap.org/soap/envelope/">
  <s:Header><Extra>x</Extra></s:Header>
  <s:Body>
    <u:GetVolumeResponse xmlns:u="urn:schemas-upnp-org:service:RenderingControl:1"><CurrentVolume>42</CurrentVolume></u:GetVolumeResponse>
    <Other>ignored</Other>
  </s:Body>
</s:Envelope>"#;
    let r = action_result(200, body, "GetVolume").ok().unwrap();
    assert_eq!(r.values.len(), 1);
    assert_eq!(r.get("CurrentVolume"), Some("42".to_string()));
    assert_eq!(r.get("Extra"), None);
    assert_eq!(r.get("Other"), None);
}

#[test]
fn fault_envelope_is_action_failed() {
    let body = r#"<s:Envelope xmlns:s="http://schemas.xmlsoap.org/soap/envelope/"><s:Body><s:Fault>
<faultcode>s:Client</faultcode><faultstring>UPnPError</faultstring>
<detail><UPnPError xmlns="urn:schemas-upnp-org:control-1-0"><errorCode>401</errorCode><errorDescription>Invalid Action</errorDescription></UPnPError></detail>
</s:Fault></s:Body></s:Envelope>"#;
    match action_result(200, body, "GetVolume") {
        Err(Error::ActionFailed(code, text)) => {
            assert_eq!(code, 401);
            assert_eq!(text, "Invalid Action");
        }
        _ => panic!("expected an action fault"),
    }
}

#[test]
fn fault_with_bad_code_is_invalid_response() {
    let body = "<Envelope><Body><Fault><detail><UPnPError><errorCode>x1</errorCode><errorDescription>d</errorDescription></UPnPError></detail></Fault></Body></Envelope>";
    assert!(matches!(action_result(200, body, "GetVolume"), Err(Error::InvalidResponse(_))));
}

#[test]
fn missing_action_response_element() {
    let body = "<Envelope><Body><SetVolumeResponse/></Body></Envelope>";
    match action_result(200, body, "GetVolume") {
        Err(Error::MissingElement(p, c)) => {
            assert_eq!(p, "UPnP Response");
            assert_eq!(c, "GetVolumeResponse");
        }
        _ => panic!("expected a missing element"),
    }
}

#[test]
fn http_error_status_is_reported_without_parsing() {
    assert!(matches!(action_result(500, "not xml at all <", "GetVolume"), Err(Error::HttpErrorCode(500))));
    assert!(matches!(err_if_not_200(404), Err(Error::HttpErrorCode(404))));
    assert!(err_if_not_200(200).is_ok());
}

#[test]
fn malformed_response_body() {
    assert!(matches!(action_result(200, "<Envelope>", "GetVolume"), Err(Error::XmlMalformed)));
}

#[test]
fn request_envelope_holds_escaped_arguments() {
    let args = vec![
        ("InstanceID".to_string(), "0".to_string()),
        ("Channel".to_string(), "Master".to_string()),
        ("Name".to_string(), "a<b & \"c\"".to_string()),
    ];
    let body = request_body("urn:schemas-upnp-org:service:RenderingControl:1", "GetVolume", &args);
    assert_eq!(
        body,
        "<?xml version=\"1.0\"?><s:Envelope xmlns:s=\"http://schemas.xmlsoap.org/soap/envelope/\" s:encodingStyle=\"http://schemas.xmlsoap.org/soap/encoding/\"><s:Body><u:GetVolume xmlns:u=\"urn:schemas-upnp-org:service:RenderingControl:1\"><InstanceID>0</InstanceID><Channel>Master</Channel><Name>a&lt;b &amp; &quot;c&quot;</Name></u:GetVolume></s:Body></s:Envelope>"
    );
    assert!(parse_xml(&body).is_ok());
}

#[test]
fn soap_action_header() {
    assert_eq!(
        soap_action("urn:schemas-upnp-org:service:RenderingControl:1", "GetVolume"),
        "\"urn:schemas-upnp-org:service:RenderingControl:1#GetVolume\""
    );
}

#[test]
fn escape_all_reserved() {
    assert_eq!(escape_text("<>&'\"x"), "&lt;&gt;&amp;&apos;&quot;x");
    assert_eq!(escape_text(""), "");
}

#[test]
fn scpd_parses_actions_and_variables() {
    let s = schema();
    assert_eq!(s.actions.len(), 2);
    let a = &s.actions[0];
    assert_eq!(a.name, "GetVolume");
    assert_eq!(a.arguments.len(), 3);
    assert_eq!(a.arguments[0].name, "InstanceID");
    assert_eq!(a.arguments[0].direction, Direction::In);
    assert_eq!(a.arguments[2].direction, Direction::Out);
    assert_eq!(a.arguments[2].related_state_variable, "Volume");
    assert_eq!(s.state_variables.len(), 4);
    assert!(matches!(s.state_variables[0].data_type, DataType::UI4));
    let ch = &s.state_variables[1];
    assert!(matches!(ch.data_type, DataType::Text));
    assert_eq!(ch.allowed_values.as_ref().unwrap(), &vec!["Master".to_string(), "LF".to_string()]);
    let vol = &s.state_variables[2];
    assert_eq!(vol.default_value.as_deref(), Some("10"));
    let range = vol.allowed_range.as_ref().unwrap();
    assert_eq!(range.minimum, "0");
    assert_eq!(range.maximum, "100");
    assert_eq!(range.step.as_deref(), Some("1"));
    match &s.state_variables[3].data_type {
        DataType::Unknown(t) => assert_eq!(t, "x-vendor-type"),
        _ => panic!("expected an unknown type"),
    }
}

#[test]
fn action_without_argument_list_has_no_arguments() {
    let s = schema();
    assert_eq!(s.actions[1].name, "ListPresets");
    assert_eq!(s.actions[1].arguments.len(), 0);
}

#[test]
fn scpd_parse_twice_gives_equal_schemas() {
    let a = schema();
    let b = schema();
    assert_eq!(a.actions.len(), b.actions.len());
    for (x, y) in a.actions.iter().zip(b.actions.iter()) {
        assert_eq!(x.name, y.name);
        assert_eq!(x.arguments.len(), y.arguments.len());
        for (p, q) in x.arguments.iter().zip(y.arguments.iter()) {
            assert_eq!(p.name, q.name);
            assert_eq!(p.direction, q.direction);
            assert_eq!(p.related_state_variable, q.related_state_variable);
        }
    }
    assert_eq!(a.state_variables.len(), b.state_variables.len());
    for (x, y) in a.state_variables.iter().zip(b.state_variables.iter()) {
        assert_eq!(x.name, y.name);
        assert_eq!(format!("{:?}", x.data_type), format!("{:?}", y.data_type));
        assert_eq!(x.default_value, y.default_value);
        assert_eq!(x.allowed_values, y.allowed_values);
        assert_eq!(x.allowed_range.is_some(), y.allowed_range.is_some());
    }
}

#[test]
fn undeclared_state_variable_is_a_fault() {
    let doc = SCPD_DOC.replace("<relatedStateVariable>Volume</relatedStateVariable>", "<relatedStateVariable>Loudness</relatedStateVariable>");
    match parse_scpd_text(&doc) {
        Err(Error::MissingElement(p, c)) => {
            assert_eq!(p, "serviceStateTable");
            assert_eq!(c, "Loudness");
        }
        _ => panic!("expected a missing state variable"),
    }
}

#[test]
fn bad_direction_is_invalid_response() {
    let doc = SCPD_DOC.replace("<direction>out</direction>", "<direction>both</direction>");
    assert!(matches!(parse_scpd_text(&doc), Err(Error::InvalidResponse(_))));
}

#[test]
fn scpd_without_state_table() {
    match parse_scpd_text("<scpd><actionList/></scpd>") {
        Err(Error::MissingElement(p, c)) => {
            assert_eq!(p, "scpd");
            assert_eq!(c, "serviceStateTable");
        }
        _ => panic!("expected a missing element"),
    }
}

#[test]
fn data_type_tokens() {
    assert!(matches!(data_type_of("boolean"), DataType::Boolean));
    assert!(matches!(data_type_of("fixed.14.4"), DataType::Fixed14_4));
    assert!(matches!(data_type_of("dateTime.tz"), DataType::DateTimeTz));
    assert!(matches!(data_type_of("Boolean"), DataType::Unknown(_)));
}

#[test]
fn decimal_numbers() {
    assert!(matches!(parse_u32("0"), Ok(0)));
    assert!(matches!(parse_u32("401"), Ok(401)));
    assert!(matches!(parse_u32("4294967295"), Ok(4294967295)));
    assert!(matches!(parse_u32("4294967296"), Err(Error::InvalidResponse(_))));
    assert!(matches!(parse_u32(""), Err(Error::InvalidResponse(_))));
    assert!(matches!(parse_u32("-1"), Err(Error::InvalidResponse(_))));
    assert!(matches!(parse_u32("+5"), Ok(5)));
    assert!(matches!(parse_u32("+"), Err(Error::InvalidResponse(_))));
    assert!(matches!(parse_u32("++5"), Err(Error::InvalidResponse(_))));
    assert!(matches!(parse_u32("+4294967296"), Err(Error::InvalidResponse(_))));
    assert!(matches!(parse_u32("12a"), Err(Error::InvalidResponse(_))));
}

#[test]
fn urls_resolve() {
    assert_eq!(origin_of("http://192.168.1.5:1400/xml/desc.xml"), "http://192.168.1.5:1400");
    assert_eq!(resolve_url("http://h:1/a/b", "/c"), "http://h:1/c");
    assert_eq!(resolve_url("http://h:1/a/b", "c"), "http://h:1/a/c");
    assert_eq!(resolve_url("http://h/dir/", "cd/event"), "http://h/dir/cd/event");
    assert_eq!(resolve_url("http://h:1", "c"), "http://h:1/c");
    assert_eq!(resolve_url("http://h:1/a/b", "https://x/y"), "https://x/y");
}

#[test]
fn root_search_ignores_ascii_case() {
    let root = parse_xml("<Envelope><Header/><BODY><x/></BODY></Envelope>").ok().unwrap();
    let body = find_root(&root, "body", "doc").ok().unwrap();
    assert_eq!(body.name, "BODY");
    assert!(matches!(find_root(&root, "Fault", "doc"), Err(Error::MissingElement(_, _))));
    assert!(str_eq_ignore_case("RenderingControl", "renderingcontrol"));
    assert!(!str_eq_ignore_case("abc", "abd"));
}

fn answer(usn: &str) -> Result<DiscoveryResult, Error> {
    Ok(DiscoveryResult {
        location: "http://192.168.1.5:1400/xml/device_description.xml".to_string(),
        search_target: "urn:schemas-upnp-org:service:RenderingControl:1".to_string(),
        usn: usn.to_string(),
    })
}

#[test]
fn survey_keeps_duplicates_and_ends_at_timeout() {
    let mut s = Survey::new(1000, 3000);
    assert_eq!(s.deadline, 4000);
    let first = s.on_response(1500, answer("uuid:A::urn:rc"));
    let second = s.on_response(3200, answer("uuid:A::urn:rc"));
    assert_eq!(first.unwrap().ok().unwrap().usn, "uuid:A::urn:rc");
    assert_eq!(second.unwrap().ok().unwrap().usn, "uuid:A::urn:rc");
    assert!(s.on_tick(3999));
    assert!(!s.on_tick(4000));
    assert!(s.on_response(3999, answer("uuid:B")).is_none());
    assert!(s.closed);
}

#[test]
fn survey_passes_faults_on() {
    let mut s = Survey::new(0, 3000);
    let r = s.on_response(10, Err(Error::InvalidResponse("bad header".to_string())));
    assert!(matches!(r, Some(Err(Error::InvalidResponse(_)))));
    assert!(s.is_open(10));
    assert!(matches!(Survey::new(u64::MAX - 1, 3000).deadline, u64::MAX));
}

#[test]
fn schema_lookups_by_name() {
    let s = schema();
    let a = s.find_action("GetVolume").unwrap();
    assert_eq!(a.arguments.len(), 3);
    assert!(s.find_action("SetVolume").is_none());
    let v = s.find_state_variable("Volume").unwrap();
    assert!(matches!(v.data_type, DataType::UI2));
    assert!(s.find_state_variable("volume").is_none());
}

#[test]
fn duplicate_action_name_is_rejected() {
    let doc = SCPD_DOC.replace("<name>ListPresets</name>", "<name>GetVolume</name>");
    assert!(matches!(parse_scpd_text(&doc), Err(Error::InvalidResponse(_))));
}

#[test]
fn duplicate_state_variable_name_is_rejected() {
    let doc = SCPD_DOC.replace("<name>Vendor</name>", "<name>Volume</name>");
    assert!(matches!(parse_scpd_text(&doc), Err(Error::InvalidResponse(_))));
}

#[test]
fn missing_argument_name_is_named() {
    let doc = SCPD_DOC.replace("<name>Channel</name>", "");
    match parse_scpd_text(&doc) {
        Err(Error::MissingElement(p, c)) => {
            assert_eq!(p, "argument");
            assert_eq!(c, "name");
        }
        _ => panic!("expected a missing element"),
    }
}

#[test]
fn missing_service_field_in_embedded_device_is_named() {
    let doc = DEVICE_DOC.replace("<serviceType>urn:schemas-upnp-org:service:ContentDirectory:1</serviceType>", "");
    let (p, c) = missing(parse_description(&doc, "http://h/"));
    assert_eq!(p, "service");
    assert_eq!(c, "serviceType");
}

#[test]
fn fault_code_with_plus_sign() {
    let body = "<Envelope><Body><Fault><detail><UPnPError><errorCode>+402</errorCode><errorDescription>Invalid Args</errorDescription></UPnPError></detail></Fault></Body></Envelope>";
    assert!(matches!(action_result(200, body, "GetVolume"), Err(Error::ActionFailed(402, _))));
}
