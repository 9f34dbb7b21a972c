use vstd::prelude::*;

use crate::text::{
    chars_of, ends_with_chars, first_token, has_prefix, has_suffix, lines, split_lines,
    split_tokens, starts_with_chars, tokens, trim, trim_text,
};

verus! {

/// The device property that names the model.
pub const MODEL_PROPERTY: &'static str = "ro.product.model";

/// The device property that gives the Android release.
pub const RELEASE_PROPERTY: &'static str = "ro.build.version.release";

/// The device property that gives the SDK level.
pub const SDK_PROPERTY: &'static str = "ro.build.version.sdk";

/// An attached Android device, as the device list describes it.
pub struct DeviceInfo {
    pub serial: String,
    pub model: String,
    pub android_version: String,
    pub sdk_version: String,
}

/// A line of the device list that stands for an attached device: it ends
/// with `device` and is not the header.
pub open spec fn is_device_line(l: Seq<char>) -> bool {
    has_suffix(l, "device"@) && !has_prefix(l, "List of devices"@)
}

/// The serials named by the first `n` lines of `ls`, in order.
pub open spec fn serials_of(ls: Seq<Seq<char>>, n: int) -> Seq<Seq<char>>
    decreases n,
{
    if n <= 0 {
        Seq::empty()
    } else {
        let prev = serials_of(ls, n - 1);
        if is_device_line(ls[n - 1]) {
            prev.push(first_token(ls[n - 1]))
        } else {
            prev
        }
    }
}

/// The serials of the attached devices that a device list names, in order.
pub open spec fn device_serials(output: Seq<char>) -> Seq<Seq<char>> {
    serials_of(lines(output), lines(output).len() as int)
}

/// What a property query answered, or `Unknown` where the query failed.
pub open spec fn property_text(answer: Option<Seq<char>>) -> Seq<char> {
    match answer {
        Some(o) => trim(o),
        None => "Unknown"@,
    }
}

/// The first word of `line`, or the empty string where it has none.
pub fn first_word(line: &str) -> (r: String)
    ensures
        r@ == first_token(line@),
{
    let words = split_tokens(line);
    if words.len() > 0 {
        words[0].clone()
    } else {
        String::new()
    }
}

/// The serials of the attached devices that the output of the device list
/// (`devices`) names, in the order they appear.
pub fn parse_device_serials(output: &str) -> (r: Vec<String>)
    ensures
        r@.len() == device_serials(output@).len(),
        forall|k: int| 0 <= k < r@.len() ==> #[trigger] r@[k]@ == device_serials(output@)[k],
{
    let rows = split_lines(output);
    let marker = chars_of("device");
    let header = chars_of("List of devices");
    let mut out: Vec<String> = Vec::new();
    let mut k: usize = 0;
    while k < rows.len()
        invariant
            marker@ == "device"@,
            header@ == "List of devices"@,
            rows@.len() == lines(output@).len(),
            forall|j: int| 0 <= j < rows@.len() ==> #[trigger] rows@[j]@ == lines(output@)[j],
            k <= rows@.len(),
            out@.len() == serials_of(lines(output@), k as int).len(),
            forall|j: int|
                0 <= j < out@.len() ==> #[trigger] out@[j]@ == serials_of(lines(output@), k as int)[j],
        decreases rows@.len() - k,
    {
        let row = rows[k].as_str();
        let cs = chars_of(row);
        if ends_with_chars(&cs, &marker) && !starts_with_chars(&cs, &header) {
            out.push(first_word(row));
        }
        k = k + 1;
    }
    out
}

/// The value of a device property from what its query printed (`None`
/// where the query could not be made): the printed text without surrounding
/// whitespace, or `Unknown`.
pub fn property_value(answer: Option<&str>) -> (r: String)
    ensures
        r@ == property_text(
            match answer {
                Some(o) => Some(o@),
                None => None,
            },
        ),
{
    match answer {
        Some(o) => trim_text(o),
        None => String::from_str("Unknown"),
    }
}

/// The description of the device `serial` from the answers to its three
/// property queries (model, release, SDK level).
pub fn describe_device(
    serial: String,
    model: Option<&str>,
    release: Option<&str>,
    sdk: Option<&str>,
) -> (r: DeviceInfo)
    ensures
        r.serial@ == serial@,
        r.model@ == property_text(
            match model {
                Some(o) => Some(o@),
                None => None,
            },
        ),
        r.android_version@ == property_text(
            match release {
                Some(o) => Some(o@),
                None => None,
            },
        ),
        r.sdk_version@ == property_text(
            match sdk {
                Some(o) => Some(o@),
                None => None,
            },
        ),
{
    DeviceInfo {
        serial,
        model: property_value(model),
        android_version: property_value(release),
        sdk_version: property_value(sdk),
    }
}

} // verus!
