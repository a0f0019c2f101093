//! The device list and its selection rule.

use vstd::prelude::*;

verus! {

use crate::device::Device;

/// The connected devices and which one is selected.
pub struct DeviceList {
    devices: Vec<Device>,
    selected_device: Option<usize>,
}

/// The position of the first device that takes commands.
pub open spec fn first_usable(ds: Seq<Device>) -> Option<int>
    decreases ds.len(),
{
    if ds.len() == 0 {
        None
    } else if ds[0].status is Device {
        Some(0)
    } else {
        match first_usable(ds.drop_first()) {
            Some(i) => Some(i + 1),
            None => None,
        }
    }
}

/// Where the selection stands after the list is replaced: gone when the
/// list is empty or the old index fell off its end, first usable device
/// when nothing was selected, otherwise kept.
pub open spec fn updated_selection(old_sel: Option<usize>, ds: Seq<Device>) -> Option<usize> {
    if ds.len() == 0 {
        None
    } else {
        match old_sel {
            None => match first_usable(ds) {
                Some(i) => Some(i as usize),
                None => None,
            },
            Some(i) => if i >= ds.len() {
                None
            } else {
                Some(i)
            },
        }
    }
}

impl DeviceList {
    /// The devices held.
    pub closed spec fn spec_devices(&self) -> Seq<Device> {
        self.devices@
    }

    /// The selected position.
    pub closed spec fn spec_selected(&self) -> Option<usize> {
        self.selected_device
    }

    pub fn new() -> (r: Self)
        ensures
            r.spec_devices() == Seq::<Device>::empty(),
            r.spec_selected() is None,
    {
        let r = Self { devices: Vec::new(), selected_device: None };
        proof {
            assert(r.spec_devices() =~= Seq::<Device>::empty());
        }
        r
    }

    /// Replaces the list and moves the selection as `updated_selection`
    /// says.
    pub fn update_devices(&mut self, devices: Vec<Device>)
        ensures
            final(self).spec_devices() == devices@,
            final(self).spec_selected() == updated_selection(
                old(self).spec_selected(),
                devices@,
            ),
    {
        self.devices = devices;
        if self.devices.len() == 0 {
            self.selected_device = None;
            return;
        }
        if self.selected_device.is_none() {
            let ghost ds = self.devices@;
            let mut j: usize = 0;
            proof {
                assert(ds.skip(0) =~= ds);
            }
            while j < self.devices.len()
                invariant
                    0 <= j <= ds.len(),
                    ds == self.devices@,
                    ds == devices@,
                    self.selected_device is None,
                    self.devices@.len() > 0,
                    match first_usable(ds.skip(j as int)) {
                        Some(i) => first_usable(ds) == Some(i + j),
                        None => first_usable(ds) is None,
                    },
                    updated_selection(old(self).spec_selected(), devices@) == (match first_usable(
                        ds,
                    ) {
                        Some(i) => Some(i as usize),
                        None => None::<usize>,
                    }),
                decreases ds.len() - j,
            {
                proof {
                    assert(ds.skip(j as int)[0] == ds[j as int]);
                    assert(ds.skip(j as int).drop_first() =~= ds.skip(j as int + 1));
                }
                if self.devices[j].is_usable() {
                    self.selected_device = Some(j);
                    return;
                }
                j = j + 1;
            }
            proof {
                assert(ds.skip(ds.len() as int) =~= Seq::<Device>::empty());
            }
        } else if let Some(i) = self.selected_device {
            if i >= self.devices.len() {
                self.selected_device = None;
            }
        }
    }

    /// The selected device, when the selection points into the list.
    pub fn selected_device(&self) -> (r: Option<&Device>)
        ensures
            match self.spec_selected() {
                Some(i) => if i < self.spec_devices().len() {
                    r is Some && r->0 == self.spec_devices()[i as int]
                } else {
                    r is None
                },
                None => r is None,
            },
    {
        match self.selected_device {
            Some(i) if i < self.devices.len() => Some(&self.devices[i]),
            _ => None,
        }
    }

    /// The devices, for rendering.
    pub fn devices(&self) -> (r: &Vec<Device>)
        ensures
            r@ == self.spec_devices(),
    {
        &self.devices
    }

    /// The selected position, for rendering.
    pub fn selected_index(&self) -> (r: Option<usize>)
        ensures
            r == self.spec_selected(),
    {
        self.selected_device
    }

    /// Selects a device that takes commands.
    pub fn select(&mut self, index: usize)
        requires
            index < old(self).spec_devices().len(),
            old(self).spec_devices()[index as int].status is Device,
        ensures
            final(self).spec_devices() == old(self).spec_devices(),
            final(self).spec_selected() == Some(index),
    {
        self.selected_device = Some(index);
    }
}

} // verus!
