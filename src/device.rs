//! Device selection for capture: which requested identifiers count as a
//! request at all, and which listed device a request resolves to, falling
//! back to the platform default.
use vstd::prelude::*;

verus! {

#[verifier::external_type_specification]
#[verifier::external_body]
pub struct ExAnyhowError(anyhow::Error);

/// An identifier that names a specific device: neither empty nor "default".
pub open spec fn names_device(id: Seq<char>) -> bool {
    id.len() > 0 && id != "default"@
}

/// A capture or render device as listed to callers.
pub struct AudioDeviceInfo {
    pub id: String,
    pub name: String,
}

/// The loopback (system audio) source, before its stream is opened.
pub struct SpeakerInput {
    device_id: Option<String>,
}

/// Which device a capture opens.
#[derive(Clone, Copy, PartialEq, Eq, Debug, Structural)]
pub enum DeviceChoice {
    /// The listed device at this index.
    Listed(usize),
    /// The platform default device.
    Default,
}

/// Index of the first of `ids` equal to `wanted`.
pub fn find_device_index(ids: &Vec<String>, wanted: &String) -> (r: Option<usize>)
    ensures
        r matches Some(i) ==> i < ids@.len() && ids@[i as int]@ == wanted@ && forall|j: int|
            0 <= j < i ==> (#[trigger] ids@[j])@ != wanted@,
        r is None ==> forall|j: int| 0 <= j < ids@.len() ==> (#[trigger] ids@[j])@ != wanted@,
{
    let mut i: usize = 0;
    while i < ids.len()
        invariant
            i <= ids@.len(),
            forall|j: int| 0 <= j < i ==> (#[trigger] ids@[j])@ != wanted@,
        decreases ids@.len() - i,
    {
        if ids[i].eq(wanted) {
            return Some(i);
        }
        i = i + 1;
    }
    None
}

impl SpeakerInput {
    pub closed spec fn requested(&self) -> Option<Seq<char>> {
        match self.device_id {
            Some(s) => Some(s@),
            None => None,
        }
    }

    /// Keeps `device_id` only when it names a specific device.
    pub fn new(device_id: Option<String>) -> (r: Result<SpeakerInput, anyhow::Error>)
        ensures
            r matches Ok(s) && match device_id {
                Some(id) => if names_device(id@) {
                    s.requested() == Some(id@)
                } else {
                    s.requested() is None
                },
                None => s.requested() is None,
            },
    {
        let device_id = match device_id {
            Some(id) => {
                let default_name: String = "default".to_owned();
                proof {
                    reveal_strlit("default");
                }
                if id.as_str().is_empty() || id.eq(&default_name) {
                    None
                } else {
                    Some(id)
                }
            },
            None => None,
        };
        Ok(SpeakerInput { device_id })
    }

    pub fn device_id(&self) -> (r: Option<&String>)
        ensures
            match r {
                Some(s) => self.requested() == Some(s@),
                None => self.requested() is None,
            },
    {
        match &self.device_id {
            Some(s) => Some(s),
            None => None,
        }
    }

    /// The device to open among the listed identifiers: the requested one
    /// when it is listed, the default otherwise.
    pub fn choose_device(&self, ids: &Vec<String>) -> (r: DeviceChoice)
        ensures
            r matches DeviceChoice::Listed(i) ==> i < ids@.len() && self.requested() == Some(
                ids@[i as int]@,
            ) && forall|j: int| 0 <= j < i ==> Some((#[trigger] ids@[j])@) != self.requested(),
            r == DeviceChoice::Default ==> match self.requested() {
                Some(w) => forall|j: int| 0 <= j < ids@.len() ==> (#[trigger] ids@[j])@ != w,
                None => true,
            },
    {
        match &self.device_id {
            Some(wanted) => match find_device_index(ids, wanted) {
                Some(i) => DeviceChoice::Listed(i),
                None => DeviceChoice::Default,
            },
            None => DeviceChoice::Default,
        }
    }
}

/// Model of a device entry: (id, name).
pub open spec fn info_view(d: AudioDeviceInfo) -> (Seq<char>, Seq<char>) {
    (d.id@, d.name@)
}

/// The first `n` enumerated (id, name) pairs, without those whose id is empty.
pub open spec fn listable(entries: Seq<(Seq<char>, Seq<char>)>, n: nat) -> Seq<(Seq<char>, Seq<char>)>
    decreases n,
{
    if n == 0 || n > entries.len() {
        Seq::empty()
    } else if entries[n - 1].0.len() == 0 {
        listable(entries, (n - 1) as nat)
    } else {
        listable(entries, (n - 1) as nat).push(entries[n - 1])
    }
}

/// Device records for every enumerated (id, name) pair, in order (input
/// devices are listed whatever id they report).
pub fn device_records(entries: Vec<(String, String)>) -> (r: Vec<AudioDeviceInfo>)
    ensures
        r@.map_values(|d: AudioDeviceInfo| info_view(d)) == entries@.map_values(
            |e: (String, String)| (e.0@, e.1@),
        ),
{
    let ghost ev = entries@.map_values(|e: (String, String)| (e.0@, e.1@));
    let ghost all = entries@;
    let mut rest = entries;
    let mut out: Vec<AudioDeviceInfo> = Vec::new();
    let mut i: usize = 0;
    let n = rest.len();
    while i < n
        invariant
            n == all.len(),
            i <= n,
            ev == all.map_values(|e: (String, String)| (e.0@, e.1@)),
            rest@ == all.subrange(i as int, n as int),
            out@.map_values(|d: AudioDeviceInfo| info_view(d)) == ev.subrange(0, i as int),
        decreases n - i,
    {
        let ghost before = out@;
        let e = rest.remove(0);
        proof {
            assert(e == all[i as int]);
            assert(rest@ =~= all.subrange(i + 1, n as int));
        }
        let (id, name) = e;
        proof {
            assert(ev[i as int] == (id@, name@));
            assert(before.map_values(|d: AudioDeviceInfo| info_view(d)) == ev.subrange(0, i as int));
        }
        out.push(AudioDeviceInfo { id, name });
        proof {
            assert(out@.map_values(|d: AudioDeviceInfo| info_view(d)) =~= before.map_values(
                |d: AudioDeviceInfo| info_view(d),
            ).push(ev[i as int]));
            assert(out@.map_values(|d: AudioDeviceInfo| info_view(d)) =~= ev.subrange(0, i + 1));
        }
        i = i + 1;
    }
    proof {
        assert(ev.subrange(0, n as int) =~= ev);
    }
    out
}

/// Device records for the enumerated output (id, name) pairs, in order,
/// leaving out devices that reported no identifier.
pub fn device_list(entries: Vec<(String, String)>) -> (r: Vec<AudioDeviceInfo>)
    ensures
        r@.map_values(|d: AudioDeviceInfo| info_view(d)) == listable(
            entries@.map_values(|e: (String, String)| (e.0@, e.1@)),
            entries@.len(),
        ),
{
    let ghost ev = entries@.map_values(|e: (String, String)| (e.0@, e.1@));
    let mut out: Vec<AudioDeviceInfo> = Vec::new();
    let mut rest = entries;
    let ghost all = rest@;
    let mut i: usize = 0;
    let n = rest.len();
    while i < n
        invariant
            n == all.len(),
            i <= n,
            ev == all.map_values(|e: (String, String)| (e.0@, e.1@)),
            rest@ == all.subrange(i as int, n as int),
            out@.map_values(|d: AudioDeviceInfo| info_view(d)) == listable(ev, i as nat),
        decreases n - i,
    {
        let ghost before = out@;
        let e = rest.remove(0);
        proof {
            assert(e == all[i as int]);
            assert(rest@ =~= all.subrange(i + 1, n as int));
        }
        let (id, name) = e;
        if !id.as_str().is_empty() {
            out.push(AudioDeviceInfo { id, name });
            proof {
                assert(out@.map_values(|d: AudioDeviceInfo| info_view(d)) =~= before.map_values(
                    |d: AudioDeviceInfo| info_view(d),
                ).push(ev[i as int]));
            }
        }
        i = i + 1;
    }
    out
}

/// For each listed id, whether it is the platform default device's id.
pub fn default_flags(ids: &Vec<String>, default_id: Option<&String>) -> (r: Vec<bool>)
    ensures
        r@.len() == ids@.len(),
        forall|i: int|
            0 <= i < ids@.len() ==> #[trigger] r@[i] == match default_id {
                Some(d) => ids@[i]@ == d@,
                None => false,
            },
{
    let mut out: Vec<bool> = Vec::new();
    let mut i: usize = 0;
    while i < ids.len()
        invariant
            i <= ids@.len(),
            out@.len() == i,
            forall|j: int|
                0 <= j < i ==> #[trigger] out@[j] == match default_id {
                    Some(d) => ids@[j]@ == d@,
                    None => false,
                },
        decreases ids@.len() - i,
    {
        let is_default = match default_id {
            Some(d) => ids[i].eq(d),
            None => false,
        };
        out.push(is_default);
        i = i + 1;
    }
    out
}

} // verus!
