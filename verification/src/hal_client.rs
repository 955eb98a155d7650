//! Reaching the driver through the audio system.

use crate::text::{signed_decimal, signed_decimal_text};
use vstd::prelude::*;
use vstd::string::*;
use vstd::utf8::{decode_utf8, valid_utf8};

verus! {

/// Why the driver could not be reached.
#[derive(Debug, PartialEq, Eq)]
pub enum HalClientError {
    DriverNotFound,
    OsStatus(i32),
    CoreFoundationError(String),
    Serialize(String),
    InvalidUtf8,
}

/// The text about a driver that could not be reached.
pub open spec fn hal_error_text(error: HalClientError) -> Seq<char> {
    match error {
        HalClientError::DriverNotFound =>
        "Mars driver plugin not found in loaded CoreAudio plugins"@,
        HalClientError::OsStatus(status) => "CoreAudio OSStatus error: "@ + signed_decimal(
            status as int,
        ),
        HalClientError::CoreFoundationError(reason) => "CoreFoundation error: "@ + reason@,
        HalClientError::Serialize(reason) => "JSON serialization error: "@ + reason@,
        HalClientError::InvalidUtf8 => "invalid UTF-8 in property data"@,
    }
}

impl HalClientError {
    /// The text about a driver that could not be reached.
    pub fn message(&self) -> (r: String)
        ensures
            r@ == hal_error_text(*self),
    {
        match self {
            HalClientError::DriverNotFound => String::from_str(
                "Mars driver plugin not found in loaded CoreAudio plugins",
            ),
            HalClientError::OsStatus(status) => {
                let mut text = String::from_str("CoreAudio OSStatus error: ");
                text.append(signed_decimal_text(*status as i64).as_str());
                text
            },
            HalClientError::CoreFoundationError(reason) => {
                let mut text = String::from_str("CoreFoundation error: ");
                text.append(reason.as_str());
                text
            },
            HalClientError::Serialize(reason) => {
                let mut text = String::from_str("JSON serialization error: ");
                text.append(reason.as_str());
                text
            },
            HalClientError::InvalidUtf8 => String::from_str("invalid UTF-8 in property data"),
        }
    }
}

/// A plugin that the audio system has loaded; without a bundle where it does not say.
#[derive(Debug, PartialEq, Eq)]
pub struct LoadedPlugin {
    pub id: u32,
    pub bundle_id: Option<String>,
}

/// Whether a plugin comes from a bundle.
pub open spec fn from_bundle(plugin: LoadedPlugin, bundle: Seq<char>) -> bool {
    plugin.bundle_id matches Some(id) && id@ == bundle
}

/// The first plugin that comes from a bundle.
pub open spec fn first_from_bundle(plugins: Seq<LoadedPlugin>, bundle: Seq<char>, i: int) -> Option<
    u32,
>
    decreases plugins.len() - i,
{
    if i < 0 || i >= plugins.len() {
        None
    } else if from_bundle(plugins[i], bundle) {
        Some(plugins[i].id)
    } else {
        first_from_bundle(plugins, bundle, i + 1)
    }
}

/// The driver among the loaded plugins.
pub fn find_mars_driver(
    listed: Result<Vec<LoadedPlugin>, HalClientError>,
    bundle_id: &str,
) -> (r: Result<u32, HalClientError>)
    ensures
        match listed {
            Err(error) => r == Err::<u32, HalClientError>(error),
            Ok(plugins) => r == (match first_from_bundle(plugins@, bundle_id@, 0) {
                Some(id) => Ok::<u32, HalClientError>(id),
                None => Err(HalClientError::DriverNotFound),
            }),
        },
{
    match listed {
        Err(error) => Err(error),
        Ok(plugins) => {
            let wanted = String::from_str(bundle_id);
            let mut i: usize = 0;
            while i < plugins.len()
                invariant
                    wanted@ == bundle_id@,
                    i <= plugins.len(),
                    first_from_bundle(plugins@, bundle_id@, 0) == first_from_bundle(
                        plugins@,
                        bundle_id@,
                        i as int,
                    ),
                    listed == Ok::<Vec<LoadedPlugin>, HalClientError>(plugins),
                decreases plugins.len() - i,
            {
                match &plugins[i].bundle_id {
                    Some(id) => if *id == wanted {
                        return Ok(plugins[i].id);
                    },
                    None => {},
                }
                i = i + 1;
            }
            Err(HalClientError::DriverNotFound)
        },
    }
}

/// Whether the driver is among the loaded plugins.
pub fn is_driver_loaded(
    listed: Result<Vec<LoadedPlugin>, HalClientError>,
    bundle_id: &str,
) -> (r: bool)
    ensures
        r == (listed matches Ok(plugins) && first_from_bundle(plugins@, bundle_id@, 0) is Some),
{
    find_mars_driver(listed, bundle_id).is_ok()
}

// ---------------------------------------------------------------------------
// Reading what the audio system hands out

/// A call of the audio system succeeds with the status zero.
pub fn check_status(status: i32) -> (r: Result<(), HalClientError>)
    ensures
        r == if status == 0 {
            Ok::<(), HalClientError>(())
        } else {
            Err(HalClientError::OsStatus(status))
        },
{
    if status != 0 {
        return Err(HalClientError::OsStatus(status));
    }
    Ok(())
}

/// How many plugins a list of the given size in bytes names.
pub fn plugin_count(data_size: u32) -> (r: usize)
    ensures
        r == data_size / 4,
{
    (data_size / 4) as usize
}

/// Whether an error comes from the framework, with this reason.
pub open spec fn framework_error(error: HalClientError, reason: Seq<char>) -> bool {
    error matches HalClientError::CoreFoundationError(text) && text@ == reason
}

/// The bytes of a property, from the statuses of asking for its size and for itself, and from
/// what was handed out.
pub fn property_bytes(size_status: i32, read_status: i32, data: Option<Vec<u8>>) -> (r: Result<
    Vec<u8>,
    HalClientError,
>)
    ensures
        match r {
            Ok(bytes) => {
                &&& size_status == 0 && read_status == 0
                &&& data == Some(bytes)
                &&& bytes@.len() > 0
            },
            Err(error) => if size_status != 0 {
                error == HalClientError::OsStatus(size_status)
            } else if read_status != 0 {
                error == HalClientError::OsStatus(read_status)
            } else {
                match data {
                    None => framework_error(error, "GetPropertyData returned null CFData"@),
                    Some(bytes) => bytes@.len() == 0 && framework_error(
                        error,
                        "CFData has no bytes"@,
                    ),
                }
            },
        },
{
    if size_status != 0 {
        return Err(HalClientError::OsStatus(size_status));
    }
    if read_status != 0 {
        return Err(HalClientError::OsStatus(read_status));
    }
    match data {
        None => Err(
            HalClientError::CoreFoundationError(
                String::from_str("GetPropertyData returned null CFData"),
            ),
        ),
        Some(bytes) => if bytes.len() == 0 {
            Err(HalClientError::CoreFoundationError(String::from_str("CFData has no bytes")))
        } else {
            Ok(bytes)
        },
    }
}

/// `core::str::from_utf8`: the text that the bytes encode, where they are well-formed UTF-8,
/// and nothing where they are not.
#[verifier::external_body]
fn text_from_utf8(bytes: &Vec<u8>) -> (r: Option<String>)
    ensures
        match r {
            Some(text) => valid_utf8(bytes@) && text@ == decode_utf8(bytes@),
            None => !valid_utf8(bytes@),
        },
{
    match core::str::from_utf8(bytes) {
        Ok(text) => Some(String::from(text)),
        Err(_) => None,
    }
}

/// The text of a property, which has to be well-formed UTF-8.
pub fn property_text(read: Result<Vec<u8>, HalClientError>) -> (r: Result<String, HalClientError>)
    ensures
        match read {
            Err(error) => r == Err::<String, HalClientError>(error),
            Ok(bytes) => match r {
                Ok(text) => valid_utf8(bytes@) && text@ == decode_utf8(bytes@),
                Err(error) => !valid_utf8(bytes@) && error == HalClientError::InvalidUtf8,
            },
        },
{
    match read {
        Err(error) => Err(error),
        Ok(bytes) => match text_from_utf8(&bytes) {
            Some(text) => Ok(text),
            None => Err(HalClientError::InvalidUtf8),
        },
    }
}

/// The text that bytes stand for, with replacements for what is not well-formed.
pub uninterp spec fn lossy_text(bytes: Seq<u8>) -> Seq<char>;

/// `String::from_utf8_lossy`: the text that the bytes encode, with a replacement character
/// for each part that is not well-formed UTF-8. It depends on the bytes alone, and well-formed
/// bytes give what they encode.
#[verifier::external_body]
fn text_from_utf8_lossy(bytes: &Vec<u8>) -> (r: String)
    ensures
        r@ == lossy_text(bytes@),
        valid_utf8(bytes@) ==> r@ == decode_utf8(bytes@),
{
    String::from_utf8_lossy(bytes).into_owned()
}

/// The place of the first zero byte at or behind a place, or the end.
pub open spec fn zero_place(bytes: Seq<u8>, from: int) -> int
    decreases bytes.len() - from,
{
    if from < 0 || from >= bytes.len() || bytes[from] == 0 {
        from
    } else {
        zero_place(bytes, from + 1)
    }
}

/// The text of a buffer up to its first zero byte.
pub fn terminated_text(buffer: &Vec<u8>) -> (r: String)
    ensures
        r@ == lossy_text(buffer@.take(zero_place(buffer@, 0))),
        valid_utf8(buffer@.take(zero_place(buffer@, 0))) ==> r@ == decode_utf8(
            buffer@.take(zero_place(buffer@, 0)),
        ),
{
    let mut bytes: Vec<u8> = Vec::new();
    let mut end: usize = 0;
    while end < buffer.len() && buffer[end] != 0
        invariant
            end <= buffer.len(),
            bytes@ =~= buffer@.take(end as int),
            zero_place(buffer@, 0) == zero_place(buffer@, end as int),
        decreases buffer.len() - end,
    {
        bytes.push(buffer[end]);
        end = end + 1;
    }
    text_from_utf8_lossy(&bytes)
}

/// What asking for the name of a plugin's bundle came to.
#[derive(Debug)]
pub enum BundleRead {
    Failed { status: i32 },
    Missing,
    Unconvertible,
    Read { buffer: Vec<u8> },
}

/// The name of a plugin's bundle.
pub fn plugin_bundle_id(read: BundleRead) -> (r: Result<String, HalClientError>)
    ensures
        match (read, r) {
            (BundleRead::Failed { status }, Err(error)) => error == HalClientError::OsStatus(status),
            (BundleRead::Missing, Err(error)) => framework_error(error, "bundle ID is null"@),
            (BundleRead::Unconvertible, Err(error)) => framework_error(
                error,
                "CFStringGetCString failed"@,
            ),
            (BundleRead::Read { buffer }, Ok(text)) => {
                let bytes = buffer@.take(zero_place(buffer@, 0));
                &&& text@ == lossy_text(bytes)
                &&& valid_utf8(bytes) ==> text@ == decode_utf8(bytes)
            },
            _ => false,
        },
{
    match read {
        BundleRead::Failed { status } => Err(HalClientError::OsStatus(status)),
        BundleRead::Missing => Err(
            HalClientError::CoreFoundationError(String::from_str("bundle ID is null")),
        ),
        BundleRead::Unconvertible => Err(
            HalClientError::CoreFoundationError(String::from_str("CFStringGetCString failed")),
        ),
        BundleRead::Read { buffer } => Ok(terminated_text(&buffer)),
    }
}

/// The driver that is found is a plugin of the bundle that is asked for, and one is found where
/// any is of it.
pub proof fn law_driver_is_found_by_its_bundle(
    plugins: Vec<LoadedPlugin>,
    bundle_id: &str,
    r: Result<u32, HalClientError>,
    loaded: bool,
    i: int,
)
    requires
        call_ensures(
            find_mars_driver,
            (Ok::<Vec<LoadedPlugin>, HalClientError>(plugins), bundle_id),
            r,
        ),
        call_ensures(
            is_driver_loaded,
            (Ok::<Vec<LoadedPlugin>, HalClientError>(plugins), bundle_id),
            loaded,
        ),
    ensures
        r is Ok ==> exists|k: int|
            0 <= k < plugins@.len() && (#[trigger] plugins@[k]).id == r->Ok_0
                && plugins@[k].bundle_id is Some && plugins@[k].bundle_id->0@ == bundle_id@,
        0 <= i < plugins@.len() && plugins@[i].bundle_id is Some && plugins@[i].bundle_id->0@
            == bundle_id@ ==> r is Ok && loaded,
        loaded <==> r is Ok,
{
    lemma_first_from_bundle(plugins@, bundle_id@, 0, i);
}

proof fn lemma_first_from_bundle(
    plugins: Seq<LoadedPlugin>,
    bundle: Seq<char>,
    from: int,
    i: int,
)
    requires
        0 <= from <= plugins.len(),
    ensures
        first_from_bundle(plugins, bundle, from) matches Some(id) ==> exists|k: int|
            from <= k < plugins.len() && (#[trigger] plugins[k]).id == id && plugins[k].bundle_id
                is Some && plugins[k].bundle_id->0@ == bundle,
        from <= i < plugins.len() && plugins[i].bundle_id is Some && plugins[i].bundle_id->0@
            == bundle ==> first_from_bundle(plugins, bundle, from) is Some,
    decreases plugins.len() - from,
{
    if from < plugins.len() {
        lemma_first_from_bundle(plugins, bundle, from + 1, i);
        if from_bundle(plugins[from], bundle) {
            assert(plugins[from].id == first_from_bundle(plugins, bundle, from)->0);
        }
    }
}

/// A property is read exactly where asking for its size and for itself succeeded and it holds
/// something.
pub proof fn law_properties_are_read_where_asking_succeeded(
    size_status: i32,
    read_status: i32,
    data: Option<Vec<u8>>,
    r: Result<Vec<u8>, HalClientError>,
    status: Result<(), HalClientError>,
)
    requires
        call_ensures(property_bytes, (size_status, read_status, data), r),
        call_ensures(check_status, (size_status,), status),
    ensures
        r is Ok <==> size_status == 0 && read_status == 0 && data is Some && data->0@.len() > 0,
        r is Ok ==> r->Ok_0 == data->0,
        status is Ok <==> size_status == 0,
{
}

/// A text that ends with a zero is what stands in front of it.
pub proof fn law_texts_end_at_a_zero(bytes: Seq<u8>, n: int)
    requires
        0 <= n < bytes.len(),
        bytes[n] == 0,
        forall|i: int| 0 <= i < n ==> bytes[i] != 0,
    ensures
        zero_place(bytes, 0) == n,
{
    lemma_zero_place(bytes, 0, n);
}

proof fn lemma_zero_place(bytes: Seq<u8>, from: int, n: int)
    requires
        0 <= from <= n < bytes.len(),
        bytes[n] == 0,
        forall|i: int| 0 <= i < n ==> bytes[i] != 0,
    ensures
        zero_place(bytes, from) == n,
    decreases n - from,
{
    if from < n {
        lemma_zero_place(bytes, from + 1, n);
    }
}

} // verus!
