//! Input devices and the rate of what they deliver.

use vstd::prelude::*;
use vstd::string::*;

use crate::arith::{capped, saturating_product};
use crate::audio::wav::SAMPLE_RATE;
use crate::text::same_text;

verus! {

broadcast use vstd::string::group_string_axioms;

#[derive(Clone, PartialEq, Eq, Debug)]
pub struct AudioDeviceInfo {
    pub id: String,
    pub name: String,
    pub is_default: bool,
}

#[derive(Clone, PartialEq, Eq, Debug)]
pub enum AudioCaptureError {
    NoDevice,
    DeviceNotFound(String),
    Capture(String),
    Worker,
}

impl AudioCaptureError {
    /// What the error says to a reader.
    pub fn message(&self) -> (result: String)
        ensures
            result@ == match *self {
                AudioCaptureError::NoDevice => "no audio input device is available"@,
                AudioCaptureError::DeviceNotFound(id) => "audio device "@ + id@
                    + " was not found"@,
                AudioCaptureError::Capture(reason) => "audio capture failed: "@ + reason@,
                AudioCaptureError::Worker => "audio capture worker failed"@,
            },
    {
        match self {
            AudioCaptureError::NoDevice => String::from_str("no audio input device is available"),
            AudioCaptureError::DeviceNotFound(id) => {
                let mut text = String::from_str("audio device ");
                text.append(id.as_str());
                text.append(" was not found");
                text
            },
            AudioCaptureError::Capture(reason) => {
                let mut text = String::from_str("audio capture failed: ");
                text.append(reason.as_str());
                text
            },
            AudioCaptureError::Worker => String::from_str("audio capture worker failed"),
        }
    }
}

/// Which device to record from.
#[derive(Clone, Copy, PartialEq, Eq, Structural, Debug)]
pub enum DeviceChoice {
    /// The host's own choice.
    Default,
    /// The device at a place in the host's list.
    Listed(usize),
}

/// The device at a place in the list has a name.
pub open spec fn has_name(names: Seq<Option<String>>, i: int, name: Seq<char>) -> bool {
    names[i] matches Some(n) && n@ == name
}

/// Chooses the device to record from among the host's devices, given by their names where
/// they have one: the host's default for the identifier `default`, otherwise the first
/// device of that name.
pub fn select_input_device(
    device_id: &str,
    names: &Vec<Option<String>>,
) -> (result: Result<DeviceChoice, AudioCaptureError>)
    ensures
        match result {
            Ok(DeviceChoice::Default) => device_id@ == "default"@,
            Ok(DeviceChoice::Listed(at)) => {
                &&& device_id@ != "default"@
                &&& at < names@.len()
                &&& has_name(names@, at as int, device_id@)
                &&& forall|k: int| 0 <= k < at ==> !#[trigger] has_name(names@, k, device_id@)
            },
            Err(AudioCaptureError::DeviceNotFound(id)) => {
                &&& device_id@ != "default"@
                &&& id@ == device_id@
                &&& forall|k: int|
                    0 <= k < names@.len() ==> !#[trigger] has_name(names@, k, device_id@)
            },
            Err(_) => false,
        },
        result == Ok::<DeviceChoice, AudioCaptureError>(DeviceChoice::Default) <==> device_id@
            == "default"@,
        result is Err <==> device_id@ != "default"@ && forall|k: int|
            0 <= k < names@.len() ==> (#[trigger] names@[k] is None || names@[k]->0@ != device_id@),
{
    if same_text(device_id, "default") {
        return Ok(DeviceChoice::Default);
    }
    let mut i: usize = 0;
    while i < names.len()
        invariant
            i <= names@.len(),
            device_id@ != "default"@,
            forall|k: int| 0 <= k < i ==> !#[trigger] has_name(names@, k, device_id@),
        decreases names@.len() - i,
    {
        match &names[i] {
            Some(name) => {
                if same_text(name.as_str(), device_id) {
                    assert(has_name(names@, i as int, device_id@));
                    return Ok(DeviceChoice::Listed(i));
                }
            },
            None => {},
        }
        i += 1;
    }
    assert forall|k: int| 0 <= k < names@.len() implies (#[trigger] names@[k] is None
        || names@[k]->0@ != device_id@) by {
        assert(!has_name(names@, k, device_id@));
    }
    Err(AudioCaptureError::DeviceNotFound(String::from_str(device_id)))
}

/// What is shown of a device: its name is its identifier too.
pub open spec fn describes(info: AudioDeviceInfo, name: Seq<char>, default_name: Option<Seq<char>>) -> bool {
    &&& info.id@ == name
    &&& info.name@ == name
    &&& info.is_default == (default_name == Some(name))
}

/// The names that there are, in order.
pub open spec fn known_names(names: Seq<Option<String>>) -> Seq<Seq<char>>
    decreases names.len(),
{
    if names.len() == 0 {
        Seq::empty()
    } else {
        let before = known_names(names.drop_last());
        match names.last() {
            Some(name) => before.push(name@),
            None => before,
        }
    }
}

/// Lists the devices that have a name and marks the default one.
pub fn list_devices(names: Vec<Option<String>>, default_name: &Option<String>) -> (result: Vec<
    AudioDeviceInfo,
>)
    ensures
        result@.len() == known_names(names@).len(),
        forall|i: int|
            0 <= i < result@.len() ==> describes(
                #[trigger] result@[i],
                known_names(names@)[i],
                crate::text::opt_view(*default_name),
            ),
{
    let ghost wanted = crate::text::opt_view(*default_name);
    let mut result: Vec<AudioDeviceInfo> = Vec::new();
    let mut i: usize = 0;
    assert(known_names(names@.take(0)).len() == 0);
    while i < names.len()
        invariant
            i <= names@.len(),
            wanted == crate::text::opt_view(*default_name),
            result@.len() == known_names(names@.take(i as int)).len(),
            forall|k: int|
                0 <= k < result@.len() ==> describes(
                    #[trigger] result@[k],
                    known_names(names@.take(i as int))[k],
                    wanted,
                ),
        decreases names@.len() - i,
    {
        assert(names@.take(i + 1).drop_last() =~= names@.take(i as int));
        assert(names@.take(i + 1).last() == names@[i as int]);
        match &names[i] {
            Some(name) => {
                let is_default = match default_name {
                    Some(other) => same_text(other.as_str(), name.as_str()),
                    None => false,
                };
                result.push(
                    AudioDeviceInfo { id: name.clone(), name: name.clone(), is_default },
                );
            },
            None => {},
        }
        i += 1;
    }
    assert(names@.take(i as int) =~= names@);
    result
}

/// How many samples a recording has at the library's own rate.
pub open spec fn resampled_len(size: int, sample_rate: u32) -> int {
    if size == 0 {
        0
    } else if sample_rate == SAMPLE_RATE {
        size
    } else {
        capped(size * SAMPLE_RATE) / sample_rate as int
    }
}

/// The sample of the recording that stands at a place after the change of rate.
pub open spec fn source_index(size: int, sample_rate: u32, i: int) -> int {
    if sample_rate == SAMPLE_RATE {
        i
    } else {
        let at = capped(i * sample_rate) / SAMPLE_RATE as int;
        if at < size {
            at
        } else {
            size - 1
        }
    }
}

/// Which samples of a mono recording of a given rate make up the recording at the
/// library's own rate, in order.
pub fn resample_plan(size: usize, sample_rate: u32) -> (result: Vec<usize>)
    requires
        sample_rate > 0,
    ensures
        result@.len() == resampled_len(size as int, sample_rate),
        forall|i: int|
            0 <= i < result@.len() ==> #[trigger] result@[i] == source_index(
                size as int,
                sample_rate,
                i,
            ),
        forall|i: int| 0 <= i < result@.len() ==> #[trigger] result@[i] < size,
{
    let mut plan: Vec<usize> = Vec::new();
    if size == 0 {
        return plan;
    }
    let same_rate = sample_rate == SAMPLE_RATE;
    let wanted: usize = if same_rate {
        size
    } else {
        saturating_product(size, SAMPLE_RATE as usize) / (sample_rate as usize)
    };
    let mut i: usize = 0;
    while i < wanted
        invariant
            i <= wanted,
            size > 0,
            sample_rate > 0,
            same_rate == (sample_rate == SAMPLE_RATE),
            wanted == resampled_len(size as int, sample_rate),
            plan@.len() == i,
            forall|k: int|
                0 <= k < i ==> #[trigger] plan@[k] == source_index(size as int, sample_rate, k),
            forall|k: int| 0 <= k < i ==> #[trigger] plan@[k] < size,
        decreases wanted - i,
    {
        let at: usize = if same_rate {
            i
        } else {
            let at: usize = saturating_product(i, sample_rate as usize) / (SAMPLE_RATE as usize);
            if at < size {
                at
            } else {
                size - 1
            }
        };
        plan.push(at);
        i += 1;
    }
    plan
}

/// The devices that have a name are all listed, in their order, and no others.
pub proof fn devices_with_a_name_are_listed(names: Seq<Option<String>>)
    ensures
        known_names(names) == names.filter(|name: Option<String>| name is Some).map_values(
            |name: Option<String>| name->0@,
        ),
    decreases names.len(),
{
    reveal(Seq::filter);
    let named = |name: Option<String>| name is Some;
    let text = |name: Option<String>| name->0@;
    if names.len() > 0 {
        let rest = names.drop_last();
        devices_with_a_name_are_listed(rest);
        if names.last() is Some {
            assert(names.filter(named) == rest.filter(named).push(names.last()));
            assert(names.filter(named).map_values(text) =~= rest.filter(named).map_values(
                text,
            ).push(text(names.last())));
        }
    } else {
        assert(known_names(names) =~= names.filter(named).map_values(text));
    }
}

/// A change of rate keeps the time: a recording of the library's own rate is taken sample by
/// sample; of any other, as many samples are taken as fit into its length, and each is the
/// last that was recorded by its time.
pub proof fn resampling_keeps_the_time(size: int, sample_rate: u32, i: int)
    requires
        0 < size,
        0 < sample_rate,
        size * 16_000 <= usize::MAX,
        0 <= i < resampled_len(size, sample_rate),
        i * sample_rate <= usize::MAX,
    ensures
        ({
            let n = resampled_len(size, sample_rate);
            let at = source_index(size, sample_rate, i);
            &&& sample_rate == 16_000 ==> n == size && at == i
            &&& n * sample_rate <= size * 16_000 < (n + 1) * sample_rate
            &&& at * 16_000 <= i * sample_rate < (at + 1) * 16_000
            &&& 0 <= at < size
        }),
{
    let rate = sample_rate as int;
    let n = resampled_len(size, sample_rate);
    assert(0 <= i * rate) by (nonlinear_arith)
        requires
            0 <= i,
            0 < rate,
    ;
    if rate != 16_000 {
        let whole = size * 16_000;
        vstd::arithmetic::div_mod::lemma_fundamental_div_mod(whole, rate);
        assert(n == whole / rate);
        assert(rate * n == n * rate) by (nonlinear_arith);
        assert((n + 1) * rate == n * rate + rate) by (nonlinear_arith);
        assert(i * rate < n * rate) by (nonlinear_arith)
            requires
                i < n,
                0 < rate,
        ;
        let wanted = i * rate;
        let at = wanted / 16_000;
        assert(n * rate <= whole);
        assert(wanted < whole);
        assert(at * 16_000 <= wanted < (at + 1) * 16_000);
        assert(at < size);
        assert(source_index(size, sample_rate, i) == at);
        assert(whole < n * rate + rate);
    } else {
        assert(n == size);
        assert((n + 1) * rate == n * rate + rate) by (nonlinear_arith);
    }
}

} // verus!
