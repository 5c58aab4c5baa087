use vstd::prelude::*;
use crate::json::keys_view;

verus! {

/// One configured shortcut: whether it is enabled and its key chord.
#[derive(Debug, Clone)]
pub struct HotkeyItem {
    pub enabled: bool,
    pub key: String,
}

/// The whole shortcut configuration: a master switch and the per-action
/// items, keyed by action name.
#[derive(Debug, Clone)]
pub struct HotkeyConfig {
    pub enabled: bool,
    pub items: Vec<(String, HotkeyItem)>,
}

/// The key chords that have to be registered: none when the master switch
/// is off, otherwise the keys of the enabled items in configuration order.
pub open spec fn spec_active_keys(enabled: bool, items: Seq<(String, HotkeyItem)>) -> Seq<Seq<char>>
    decreases items.len(),
{
    if !enabled || items.len() == 0 {
        Seq::empty()
    } else {
        let front = spec_active_keys(enabled, items.drop_last());
        if items.last().1.enabled {
            front.push(items.last().1.key@)
        } else {
            front
        }
    }
}

impl HotkeyConfig {
    /// The key chords to register with the host for this configuration.
    pub fn active_keys(&self) -> (r: Vec<String>)
        ensures
            keys_view(r@) == spec_active_keys(self.enabled, self.items@),
    {
        let mut r: Vec<String> = Vec::new();
        if !self.enabled {
            proof {
                assert(keys_view(r@) =~= spec_active_keys(self.enabled, self.items@));
            }
            return r;
        }
        let mut i: usize = 0;
        while i < self.items.len()
            invariant
                self.enabled,
                0 <= i <= self.items@.len(),
                keys_view(r@) == spec_active_keys(self.enabled, self.items@.take(i as int)),
            decreases self.items@.len() - i,
        {
            proof {
                assert(self.items@.take(i as int + 1).drop_last() =~= self.items@.take(i as int));
                assert(self.items@.take(i as int + 1).last() == self.items@[i as int]);
            }
            if self.items[i].1.enabled {
                let ghost old_r = keys_view(r@);
                r.push(self.items[i].1.key.clone());
                proof {
                    assert(keys_view(r@) =~= old_r.push(self.items@[i as int].1.key@));
                }
            }
            i = i + 1;
        }
        proof {
            assert(self.items@.take(self.items@.len() as int) =~= self.items@);
        }
        r
    }
}

} // verus!
