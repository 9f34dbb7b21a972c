use vstd::prelude::*;

verus! {

/// The number of polling rounds in one scan.
pub const SCAN_ROUNDS: u32 = 30;

/// A Bluetooth LE peripheral seen during a scan.
pub struct DeviceInfo {
    pub id: String,
    pub name: Option<String>,
    pub rssi: Option<i16>,
    pub service_count: Option<usize>,
    pub is_connectable: bool,
}

/// The peripherals already reported during one scan, so that each is reported once.
pub struct ScanTracker {
    seen: Vec<String>,
}

impl View for ScanTracker {
    type V = Seq<Seq<char>>;

    closed spec fn view(&self) -> Seq<Seq<char>> {
        self.seen@.map_values(|s: String| s@)
    }
}

impl ScanTracker {
    /// A scan that has reported nothing yet.
    pub fn new() -> (r: ScanTracker)
        ensures
            r@ == Seq::<Seq<char>>::empty(),
    {
        let r = ScanTracker { seen: Vec::new() };
        assert(r@ =~= Seq::<Seq<char>>::empty());
        r
    }

    /// Whether the peripheral `id` was reported already.
    pub fn has_seen(&self, id: &str) -> (r: bool)
        ensures
            r == self@.contains(id@),
    {
        let key = String::from_str(id);
        let mut i: usize = 0;
        while i < self.seen.len()
            invariant
                key@ == id@,
                i <= self.seen@.len(),
                forall|j: int| 0 <= j < i ==> self.seen@[j]@ != id@,
            decreases self.seen@.len() - i,
        {
            if self.seen[i] == key {
                assert(self@[i as int] == id@);
                return true;
            }
            i = i + 1;
        }
        assert forall|j: int| 0 <= j < self@.len() implies self@[j] != id@ by {
            assert(self@[j] == self.seen@[j]@);
        }
        false
    }

    /// Takes note of a peripheral whose properties could be read: the report
    /// to make where it is new, with its service count and not marked
    /// connectable, or `None` where it was reported already.
    pub fn observe(
        &mut self,
        id: String,
        name: Option<String>,
        rssi: Option<i16>,
        service_count: usize,
    ) -> (r: Option<DeviceInfo>)
        ensures
            old(self)@.contains(id@) ==> r is None && final(self)@ == old(self)@,
            !old(self)@.contains(id@) ==> r is Some && final(self)@ == old(self)@.push(id@),
            r matches Some(d) ==> d.id@ == id@ && d.name == name && d.rssi == rssi
                && d.service_count == Some(service_count) && !d.is_connectable,
    {
        if self.has_seen(id.as_str()) {
            return None;
        }
        let ghost before = self@;
        self.seen.push(id.clone());
        assert(self@ =~= before.push(id@));
        Some(DeviceInfo { id, name, rssi, service_count: Some(service_count), is_connectable: false })
    }
}

} // verus!
