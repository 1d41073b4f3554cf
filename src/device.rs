use crate::error::Error;
use crate::url::{origin, origin_of, resolve, resolve_url};
use crate::xml::{
    child_of, document_of, find_child, is_missing, last_named, optional_text, parse_xml,
    required_child, required_text, str_eq, XmlElement,
};
use vstd::prelude::*;

verus! {

/// A service that a device offers, with its URLs resolved against the device's base.
pub struct ServiceDescriptor {
    pub service_type: String,
    pub service_id: String,
    pub control_url: String,
    pub description_url: String,
    pub event_sub_url: String,
}

/// A device, the services it offers and the devices embedded in it, in document order.
pub struct DeviceDescription {
    pub friendly_name: String,
    pub device_type: String,
    pub udn: String,
    pub url_base: String,
    pub services: Vec<ServiceDescriptor>,
    pub embedded_devices: Vec<DeviceDescription>,
}

/// Whether `e` has a child named `name`.
pub open spec fn has_child(e: XmlElement, name: Seq<char>) -> bool {
    child_of(e, name) is Some
}

/// The text of the child of `e` named `name`.
pub open spec fn text_of(e: XmlElement, name: Seq<char>) -> Seq<char> {
    child_of(e, name)->Some_0.text@
}

/// The children of the child of `e` named `name`; none where there is no such child.
pub open spec fn list_of(e: XmlElement, name: Seq<char>) -> Seq<XmlElement> {
    match child_of(e, name) {
        Some(l) => l.children@,
        None => Seq::empty(),
    }
}

/// A service element holds every field that a descriptor needs.
pub open spec fn service_valid(e: XmlElement) -> bool {
    has_child(e, "serviceType"@) && has_child(e, "serviceId"@) && has_child(e, "SCPDURL"@) && has_child(e, "controlURL"@)
        && has_child(e, "eventSubURL"@)
}

/// `s` is what the service element `e` describes under the base `base`.
pub open spec fn service_matches(e: XmlElement, base: Seq<char>, s: ServiceDescriptor) -> bool {
    &&& s.service_type@ == text_of(e, "serviceType"@)
    &&& s.service_id@ == text_of(e, "serviceId"@)
    &&& s.description_url@ == resolve(base, text_of(e, "SCPDURL"@))
    &&& s.control_url@ == resolve(base, text_of(e, "controlURL"@))
    &&& s.event_sub_url@ == resolve(base, text_of(e, "eventSubURL"@))
}

proof fn lemma_last_named_range(s: Seq<XmlElement>, name: Seq<char>)
    ensures
        last_named(s, name) matches Some(i) ==> 0 <= i < s.len(),
    decreases s.len(),
{
    if s.len() > 0 && s.last().name@ != name {
        lemma_last_named_range(s.drop_last(), name);
    }
}

proof fn lemma_list_decreases(e: XmlElement)
    ensures
        forall|i: int|
            0 <= i < list_of(e, "deviceList"@).len() ==> decreases_to!(e => #[trigger] list_of(e, "deviceList"@)[i]),
{
    lemma_last_named_range(e.children@, "deviceList"@);
    broadcast use vstd::std_specs::vec::axiom_vec_decreases_to_view;

    if let Some(k) = last_named(e.children@, "deviceList"@) {
        let l = e.children@[k];
        assert(decreases_to!(e => e.children));
        assert(decreases_to!(e.children => e.children@));
        assert(decreases_to!(e.children@ => l));
        assert forall|i: int| 0 <= i < l.children@.len() implies decreases_to!(e => #[trigger] l.children@[i]) by {
            assert(decreases_to!(l => l.children));
            assert(decreases_to!(l.children => l.children@));
            assert(decreases_to!(l.children@ => l.children@[i]));
        }
    }
}

#[via_fn]
proof fn valid_decreases(e: XmlElement) {
    lemma_list_decreases(e);
}

#[via_fn]
proof fn matches_decreases(e: XmlElement, base: Seq<char>, d: DeviceDescription) {
    lemma_list_decreases(e);
}

/// A device element, and each device embedded in it, holds the required fields
/// and well-formed service elements.
pub open spec fn device_valid(e: XmlElement) -> bool
    decreases e,
    via valid_decreases
{
    &&& has_child(e, "deviceType"@)
    &&& has_child(e, "friendlyName"@)
    &&& has_child(e, "UDN"@)
    &&& forall|i: int|
        0 <= i < list_of(e, "serviceList"@).len() ==> service_valid(
            #[trigger] list_of(e, "serviceList"@)[i],
        )
    &&& forall|i: int|
        0 <= i < list_of(e, "deviceList"@).len() ==> device_valid(
            #[trigger] list_of(e, "deviceList"@)[i],
        )
}

/// `d` is what the device element `e` describes under the base `base`: its
/// services and embedded devices in document order.
pub open spec fn device_matches(e: XmlElement, base: Seq<char>, d: DeviceDescription) -> bool
    decreases e,
    via matches_decreases
{
    &&& d.device_type@ == text_of(e, "deviceType"@)
    &&& d.friendly_name@ == text_of(e, "friendlyName"@)
    &&& d.udn@ == text_of(e, "UDN"@)
    &&& d.url_base@ == base
    &&& d.services@.len() == list_of(e, "serviceList"@).len()
    &&& forall|i: int|
        0 <= i < d.services@.len() ==> service_matches(
            #[trigger] list_of(e, "serviceList"@)[i],
            base,
            d.services@[i],
        )
    &&& d.embedded_devices@.len() == list_of(e, "deviceList"@).len()
    &&& forall|i: int|
        0 <= i < d.embedded_devices@.len() ==> device_matches(
            #[trigger] list_of(e, "deviceList"@)[i],
            base,
            d.embedded_devices@[i],
        )
}


/// The fault that the service element `e` gives: its first missing field.
pub open spec fn service_fault(e: XmlElement, x: Error) -> bool {
    if !has_child(e, "serviceType"@) {
        is_missing(x, e.name@, "serviceType"@)
    } else     if !has_child(e, "serviceId"@) {
        is_missing(x, e.name@, "serviceId"@)
    } else     if !has_child(e, "SCPDURL"@) {
        is_missing(x, e.name@, "SCPDURL"@)
    } else     if !has_child(e, "controlURL"@) {
        is_missing(x, e.name@, "controlURL"@)
    } else     if !has_child(e, "eventSubURL"@) {
        is_missing(x, e.name@, "eventSubURL"@)
    } else {
        false
    }
}

/// Index of the first element of `l` at or after `k` that is not a well-formed service.
pub open spec fn first_invalid_service(l: Seq<XmlElement>, k: int) -> Option<int>
    decreases l.len() - k,
{
    if k < 0 || k >= l.len() {
        None
    } else if !service_valid(l[k]) {
        Some(k)
    } else {
        first_invalid_service(l, k + 1)
    }
}

/// Index of the first element of `l` at or after `k` that is not a well-formed device.
pub open spec fn first_invalid_device(l: Seq<XmlElement>, k: int) -> Option<int>
    decreases l.len() - k,
{
    if k < 0 || k >= l.len() {
        None
    } else if !device_valid(l[k]) {
        Some(k)
    } else {
        first_invalid_device(l, k + 1)
    }
}

proof fn lemma_first_invalid_device_range(l: Seq<XmlElement>, k: int)
    ensures
        first_invalid_device(l, k) matches Some(i) ==> 0 <= i < l.len(),
    decreases l.len() - k,
{
    if 0 <= k < l.len() && device_valid(l[k]) {
        lemma_first_invalid_device_range(l, k + 1);
    }
}

#[via_fn]
proof fn fault_decreases(e: XmlElement, x: Error) {
    lemma_list_decreases(e);
    lemma_first_invalid_device_range(list_of(e, "deviceList"@), 0);
}

/// The fault that the device element `e` gives: a missing field of its own,
/// else the fault of its first malformed service, else that of its first
/// malformed embedded device, in document order.
pub open spec fn device_fault(e: XmlElement, x: Error) -> bool
    decreases e,
    via fault_decreases
{
    if !has_child(e, "deviceType"@) {
        is_missing(x, e.name@, "deviceType"@)
    } else if !has_child(e, "friendlyName"@) {
        is_missing(x, e.name@, "friendlyName"@)
    } else if !has_child(e, "UDN"@) {
        is_missing(x, e.name@, "UDN"@)
    } else {
        match first_invalid_service(list_of(e, "serviceList"@), 0) {
            Some(i) => service_fault(list_of(e, "serviceList"@)[i], x),
            None => match first_invalid_device(list_of(e, "deviceList"@), 0) {
                Some(i) => device_fault(list_of(e, "deviceList"@)[i], x),
                None => false,
            },
        }
    }
}

/// The service element `e` as a descriptor, its URLs resolved against `base`.
pub fn parse_service(e: &XmlElement, base: &str) -> (r: Result<ServiceDescriptor, Error>)
    ensures
        r is Ok <==> service_valid(*e),
        r matches Ok(s) ==> service_matches(*e, base@, s),
        r matches Err(x) ==> service_fault(*e, x),
        !has_child(*e, "serviceType"@) ==> (r matches Err(x) && is_missing(x, e.name@, "serviceType"@)),
        has_child(*e, "serviceType"@) && !has_child(*e, "serviceId"@) ==> (r matches Err(x) && is_missing(x, e.name@, "serviceId"@)),
        has_child(*e, "serviceType"@) && has_child(*e, "serviceId"@) && !has_child(*e, "SCPDURL"@) ==> (r matches Err(x) && is_missing(x, e.name@, "SCPDURL"@)),
        has_child(*e, "serviceType"@) && has_child(*e, "serviceId"@) && has_child(*e, "SCPDURL"@) && !has_child(*e, "controlURL"@) ==> (r matches Err(x) && is_missing(x, e.name@, "controlURL"@)),
        has_child(*e, "serviceType"@) && has_child(*e, "serviceId"@) && has_child(*e, "SCPDURL"@) && has_child(*e, "controlURL"@) && !has_child(*e, "eventSubURL"@) ==> (r matches Err(x) && is_missing(x, e.name@, "eventSubURL"@)),
{
    let service_type = required_text(e, "serviceType")?;
    let service_id = required_text(e, "serviceId")?;
    let scpd = required_text(e, "SCPDURL")?;
    let control = required_text(e, "controlURL")?;
    let event_sub = required_text(e, "eventSubURL")?;
    Ok(
        ServiceDescriptor {
            service_type,
            service_id,
            control_url: resolve_url(base, control.as_str()),
            description_url: resolve_url(base, scpd.as_str()),
            event_sub_url: resolve_url(base, event_sub.as_str()),
        },
    )
}

/// The fault for the first of the device's own required fields that `e` lacks.
pub open spec fn reports_missing_field(e: XmlElement, r: Result<DeviceDescription, Error>) -> bool {
    &&& !has_child(e, "deviceType"@) ==> (r matches Err(x) && is_missing(x, e.name@, "deviceType"@))
    &&& (has_child(e, "deviceType"@) && !has_child(e, "friendlyName"@)) ==> (r matches Err(x) && is_missing(
        x,
        e.name@,
        "friendlyName"@,
    ))
    &&& (has_child(e, "deviceType"@) && has_child(e, "friendlyName"@) && !has_child(e, "UDN"@)) ==> (r matches Err(
        x,
    ) && is_missing(x, e.name@, "UDN"@))
}

/// The device element `e` and all that it embeds, with `base` as the base of
/// every URL; any fault anywhere in the tree fails the whole.
pub fn parse_device(e: &XmlElement, base: &str) -> (r: Result<DeviceDescription, Error>)
    ensures
        r is Ok <==> device_valid(*e),
        r matches Ok(d) ==> device_matches(*e, base@, d),
        reports_missing_field(*e, r),
        r matches Err(x) ==> device_fault(*e, x),
    decreases e,
{
    let device_type = match required_text(e, "deviceType") {
        Ok(t) => t,
        Err(x) => return Err(x),
    };
    let friendly_name = match required_text(e, "friendlyName") {
        Ok(t) => t,
        Err(x) => return Err(x),
    };
    let udn = match required_text(e, "UDN") {
        Ok(t) => t,
        Err(x) => return Err(x),
    };
    let mut services: Vec<ServiceDescriptor> = Vec::new();
    if let Some(k) = find_child(e, "serviceList") {
        let list = &e.children[k];
        let mut i: usize = 0;
        while i < list.children.len()
            invariant
                list_of(*e, "serviceList"@) == list.children@,
                has_child(*e, "deviceType"@) && has_child(*e, "friendlyName"@) && has_child(*e, "UDN"@),
                first_invalid_service(list.children@, 0) == first_invalid_service(list.children@, i as int),
                i <= list.children@.len(),
                services@.len() == i,
                forall|j: int|
                    0 <= j < i ==> service_matches(
                        #[trigger] list.children@[j],
                        base@,
                        services@[j],
                    ) && service_valid(list.children@[j]),
            decreases list.children.len() - i,
        {
            let s = parse_service(&list.children[i], base)?;
            services.push(s);
            i += 1;
        }
    }
    let mut devices: Vec<DeviceDescription> = Vec::new();
    if let Some(k) = find_child(e, "deviceList") {
        let list = &e.children[k];
        let mut i: usize = 0;
        while i < list.children.len()
            invariant
                list_of(*e, "deviceList"@) == list.children@,
                has_child(*e, "deviceType"@) && has_child(*e, "friendlyName"@) && has_child(*e, "UDN"@),
                first_invalid_service(list_of(*e, "serviceList"@), 0) is None,
                first_invalid_device(list.children@, 0) == first_invalid_device(list.children@, i as int),
                i <= list.children@.len(),
                devices@.len() == i,
                forall|j: int|
                    0 <= j < i ==> device_matches(
                        #[trigger] list.children@[j],
                        base@,
                        devices@[j],
                    ) && device_valid(list.children@[j]),
            decreases list.children.len() - i,
        {
            proof {
                lemma_list_decreases(*e);
                assert(decreases_to!(*e => list_of(*e, "deviceList"@)[i as int]));
            }
            let d = parse_device(&list.children[i], base)?;
            devices.push(d);
            i += 1;
        }
    }
    Ok(
        DeviceDescription {
            friendly_name,
            device_type,
            udn,
            url_base: base.to_owned(),
            services,
            embedded_devices: devices,
        },
    )
}


/// The base of a description's URLs: its `URLBase` where it has one, else the
/// origin of the URL it was fetched from.
pub open spec fn description_base(root: XmlElement, fetch_url: Seq<char>) -> Seq<char> {
    if has_child(root, "URLBase"@) {
        text_of(root, "URLBase"@)
    } else {
        origin(fetch_url)
    }
}

/// What a description document with root element `root`, fetched from `fetch_url`, yields.
pub open spec fn description_outcome(
    root: XmlElement,
    fetch_url: Seq<char>,
    r: Result<DeviceDescription, Error>,
) -> bool {
    match child_of(root, "device"@) {
        None => r matches Err(x) && is_missing(x, root.name@, "device"@),
        Some(d) => {
            &&& r is Ok <==> device_valid(d)
            &&& r matches Ok(dd) ==> device_matches(d, description_base(root, fetch_url), dd)
            &&& reports_missing_field(d, r)
            &&& r matches Err(x) ==> device_fault(d, x)
        },
    }
}

/// The device that the description document with root element `root` describes.
pub fn device_from_document(root: &XmlElement, fetch_url: &str) -> (r: Result<
    DeviceDescription,
    Error,
>)
    ensures
        description_outcome(*root, fetch_url@, r),
{
    let k = match required_child(root, "device") {
        Ok(k) => k,
        Err(x) => return Err(x),
    };
    let base = match optional_text(root, "URLBase") {
        Some(b) => b,
        None => origin_of(fetch_url),
    };
    parse_device(&root.children[k], base.as_str())
}

/// The device that the description document `text`, fetched from `fetch_url`, describes.
pub fn parse_description(text: &str, fetch_url: &str) -> (r: Result<DeviceDescription, Error>)
    ensures
        match document_of(text@) {
            None => r matches Err(Error::XmlMalformed),
            Some(root) => description_outcome(root, fetch_url@, r),
        },
{
    let root = parse_xml(text)?;
    device_from_document(&root, fetch_url)
}

/// Index of the first service in `s` of type `t`.
pub open spec fn first_of_type(s: Seq<ServiceDescriptor>, t: Seq<char>) -> Option<int>
    decreases s.len(),
{
    if s.len() == 0 {
        None
    } else if s[0].service_type@ == t {
        Some(0)
    } else {
        match first_of_type(s.drop_first(), t) {
            Some(i) => Some(i + 1),
            None => None,
        }
    }
}

/// The first service of type `t` in the trees of `s`: a device's own services
/// before those of the devices it embeds, devices in document order.
pub open spec fn service_in_forest(s: Seq<DeviceDescription>, t: Seq<char>) -> Option<
    ServiceDescriptor,
>
    decreases s,
{
    if s.len() == 0 {
        None
    } else {
        match first_of_type(s[0].services@, t) {
            Some(i) => Some(s[0].services@[i]),
            None => match service_in_forest(s[0].embedded_devices@, t) {
                Some(x) => Some(x),
                None => service_in_forest(s.drop_first(), t),
            },
        }
    }
}

/// The first service of type `t` of the device `d` or of a device it embeds.
pub open spec fn service_of_type(d: DeviceDescription, t: Seq<char>) -> Option<ServiceDescriptor> {
    match first_of_type(d.services@, t) {
        Some(i) => Some(d.services@[i]),
        None => service_in_forest(d.embedded_devices@, t),
    }
}

fn own_service<'a>(s: &'a Vec<ServiceDescriptor>, t: &str) -> (r: Option<&'a ServiceDescriptor>)
    ensures
        match r {
            Some(x) => first_of_type(s@, t@) matches Some(i) && 0 <= i < s@.len() && *x == s@[i],
            None => first_of_type(s@, t@) is None,
        },
{
    let mut i: usize = 0;
    assert(s@.subrange(0, s@.len() as int) =~= s@);
    while i < s.len()
        invariant
            i <= s@.len(),
            forall|j: int| 0 <= j < i ==> s@[j].service_type@ != t@,
            first_of_type(s@, t@) == (match first_of_type(
                s@.subrange(i as int, s@.len() as int),
                t@,
            ) {
                Some(k) => Some(k + i),
                None => None,
            }),
        decreases s.len() - i,
    {
        let ghost rest = s@.subrange(i as int, s@.len() as int);
        assert(rest.drop_first() =~= s@.subrange(i + 1, s@.len() as int));
        if str_eq(s[i].service_type.as_str(), t) {
            return Some(&s[i]);
        }
        i += 1;
    }
    None
}

fn service_in_devices<'a>(s: &'a Vec<DeviceDescription>, t: &str) -> (r: Option<
    &'a ServiceDescriptor,
>)
    ensures
        match r {
            Some(x) => service_in_forest(s@, t@) == Some(*x),
            None => service_in_forest(s@, t@) is None,
        },
    decreases s@,
{
    let mut i: usize = 0;
    assert(s@.subrange(0, s@.len() as int) =~= s@);
    while i < s.len()
        invariant
            i <= s@.len(),
            service_in_forest(s@, t@) == service_in_forest(
                s@.subrange(i as int, s@.len() as int),
                t@,
            ),
        decreases s@.len() - i,
    {
        let ghost rest = s@.subrange(i as int, s@.len() as int);
        assert(rest[0] == s@[i as int]);
        assert(rest.drop_first() =~= s@.subrange(i + 1, s@.len() as int));
        if let Some(x) = own_service(&s[i].services, t) {
            return Some(x);
        }
        proof {
            broadcast use vstd::std_specs::vec::axiom_vec_decreases_to_view;

            assert(decreases_to!(s@ => s@[i as int]));
            assert(decreases_to!(s@[i as int] => s@[i as int].embedded_devices));
            assert(decreases_to!(s@[i as int].embedded_devices => s@[i as int].embedded_devices@));
        }
        if let Some(x) = service_in_devices(&s[i].embedded_devices, t) {
            return Some(x);
        }
        i += 1;
    }
    None
}

impl DeviceDescription {
    /// The first service of type `service_type` of this device or of a device it
    /// embeds: its own services first, in document order.
    pub fn find_service(&self, service_type: &str) -> (r: Option<&ServiceDescriptor>)
        ensures
            match r {
                Some(x) => service_of_type(*self, service_type@) == Some(*x),
                None => service_of_type(*self, service_type@) is None,
            },
    {
        if let Some(x) = own_service(&self.services, service_type) {
            return Some(x);
        }
        service_in_devices(&self.embedded_devices, service_type)
    }
}


/// A description that parses yields the `device` child of the document's root,
/// never an embedded one, whose services and embedded devices stand one for one
/// in document order with the children of its `serviceList` and `deviceList`.
pub proof fn lemma_description_keeps_order(
    root: XmlElement,
    fetch_url: Seq<char>,
    r: Result<DeviceDescription, Error>,
)
    requires
        description_outcome(root, fetch_url, r),
        r is Ok,
    ensures
        child_of(root, "device"@) matches Some(d) && r matches Ok(dd) && {
            let base = description_base(root, fetch_url);
            &&& dd.udn@ == text_of(d, "UDN"@)
            &&& dd.services@.len() == list_of(d, "serviceList"@).len()
            &&& forall|i: int|
                0 <= i < dd.services@.len() ==> service_matches(
                    #[trigger] list_of(d, "serviceList"@)[i],
                    base,
                    dd.services@[i],
                )
            &&& dd.embedded_devices@.len() == list_of(d, "deviceList"@).len()
            &&& forall|i: int|
                0 <= i < dd.embedded_devices@.len() ==> device_matches(
                    #[trigger] list_of(d, "deviceList"@)[i],
                    base,
                    dd.embedded_devices@[i],
                )
        },
{
    let d = child_of(root, "device"@)->Some_0;
    let dd = r->Ok_0;
    assert(device_matches(d, description_base(root, fetch_url), dd));
}

} // verus!
