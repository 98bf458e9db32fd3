//! The mixer's configuration: channels and the applications they group.
//! Reading and writing the file is done by the application around the
//! library.
use vstd::prelude::*;

use crate::strings::{eq_ignore_ascii_case, eq_ignore_ascii_case_spec, str_eq};

verus! {

/// Name of the built-in channel that takes the nodes of deleted channels.
pub const SYSTEM_CHANNEL_NAME: &'static str = "System";

/// Bits of the `f64` value 0.8, a new channel's monitor level.
pub const DEFAULT_MONITOR_LEVEL_BITS: u64 = 0x3fe9_9999_9999_999a;

/// Bits of the `f64` value 0.7, a new channel's stream level.
pub const DEFAULT_STREAM_LEVEL_BITS: u64 = 0x3fe6_6666_6666_6666;

/// A channel (submix bus) that groups applications. Levels are the bits of
/// `f64` values.
#[derive(Debug, Clone)]
pub struct Channel {
    pub name: String,
    /// Application names that belong to the channel, matched ignoring ASCII
    /// case.
    pub applications: Vec<String>,
    pub monitor_volume: u64,
    pub monitor_muted: bool,
    pub stream_volume: u64,
    pub stream_muted: bool,
    /// Built-in channels cannot be deleted.
    pub is_builtin: bool,
}

/// Whether some name in `apps` equals `app` ignoring ASCII case.
pub open spec fn app_listed(apps: Seq<String>, app: Seq<char>) -> bool {
    exists|i: int| 0 <= i < apps.len() && eq_ignore_ascii_case_spec(#[trigger] apps[i]@, app)
}

/// `apps` without the names equal to `app` ignoring ASCII case, in order.
pub open spec fn apps_without(apps: Seq<String>, app: Seq<char>) -> Seq<String>
    decreases apps.len(),
{
    if apps.len() == 0 {
        apps
    } else if eq_ignore_ascii_case_spec(apps.last()@, app) {
        apps_without(apps.drop_last(), app)
    } else {
        apps_without(apps.drop_last(), app).push(apps.last())
    }
}

impl Channel {
    /// A channel with no applications, monitor level 0.8, stream level 0.7,
    /// unmuted, not built in.
    pub fn new(name: String) -> (r: Channel)
        ensures
            r.name == name,
            r.applications@.len() == 0,
            r.monitor_volume == DEFAULT_MONITOR_LEVEL_BITS,
            r.stream_volume == DEFAULT_STREAM_LEVEL_BITS,
            !r.monitor_muted && !r.stream_muted && !r.is_builtin,
    {
        Channel {
            name,
            applications: Vec::new(),
            monitor_volume: DEFAULT_MONITOR_LEVEL_BITS,
            monitor_muted: false,
            stream_volume: DEFAULT_STREAM_LEVEL_BITS,
            stream_muted: false,
            is_builtin: false,
        }
    }

    /// Whether an application name belongs to this channel.
    pub fn matches_application(&self, app_name: &str) -> (r: bool)
        ensures
            r == app_listed(self.applications@, app_name@),
    {
        let mut i: usize = 0;
        while i < self.applications.len()
            invariant
                i <= self.applications.len(),
                forall|j: int| 0 <= j < i ==> !eq_ignore_ascii_case_spec(#[trigger] self.applications@[j]@, app_name@),
            decreases self.applications.len() - i,
        {
            if eq_ignore_ascii_case(self.applications[i].as_str(), app_name) {
                return true;
            }
            i += 1;
        }
        false
    }

    /// Adds an application, unless a name equal to it ignoring ASCII case is
    /// already there.
    pub fn add_application(&mut self, app_name: String)
        ensures
            final(self).applications@ == if app_listed(old(self).applications@, app_name@) {
                old(self).applications@
            } else {
                old(self).applications@.push(app_name)
            },
            final(self).name == old(self).name,
            final(self).monitor_volume == old(self).monitor_volume,
            final(self).monitor_muted == old(self).monitor_muted,
            final(self).stream_volume == old(self).stream_volume,
            final(self).stream_muted == old(self).stream_muted,
            final(self).is_builtin == old(self).is_builtin,
    {
        if !self.matches_application(app_name.as_str()) {
            self.applications.push(app_name);
        }
    }

    /// Removes every application name equal to `app_name` ignoring ASCII case.
    pub fn remove_application(&mut self, app_name: &str)
        ensures
            final(self).applications@ == apps_without(old(self).applications@, app_name@),
            final(self).name == old(self).name,
            final(self).monitor_volume == old(self).monitor_volume,
            final(self).monitor_muted == old(self).monitor_muted,
            final(self).stream_volume == old(self).stream_volume,
            final(self).stream_muted == old(self).stream_muted,
            final(self).is_builtin == old(self).is_builtin,
    {
        let mut kept: Vec<String> = Vec::new();
        let mut i: usize = 0;
        while i < self.applications.len()
            invariant
                i <= self.applications.len(),
                self.applications@ == old(self).applications@,
                kept@ == apps_without(self.applications@.take(i as int), app_name@),
            decreases self.applications.len() - i,
        {
            assert(self.applications@.take(i as int + 1).drop_last() =~= self.applications@.take(i as int));
            if !eq_ignore_ascii_case(self.applications[i].as_str(), app_name) {
                kept.push(self.applications[i].clone());
            }
            i += 1;
        }
        assert(self.applications@.take(self.applications.len() as int) =~= self.applications@);
        self.applications = kept;
    }
}

/// The configuration: the channels, in display order.
#[derive(Debug, Clone)]
pub struct Config {
    pub channels: Vec<Channel>,
}

impl Default for Config {
    /// No channels.
    fn default() -> (r: Config)
        ensures
            r.channels@.len() == 0,
    {
        Config { channels: Vec::new() }
    }
}

/// The position of the first channel of `chs` that lists `app`.
pub open spec fn first_with_app(chs: Seq<Channel>, app: Seq<char>) -> Option<int>
    decreases chs.len(),
{
    if chs.len() == 0 {
        None
    } else {
        match first_with_app(chs.drop_last(), app) {
            Some(i) => Some(i),
            None => if app_listed(chs.last().applications@, app) {
                Some(chs.len() - 1)
            } else {
                None
            },
        }
    }
}

/// The position of the first channel of `chs` named `name`.
pub open spec fn first_named(chs: Seq<Channel>, name: Seq<char>) -> Option<int>
    decreases chs.len(),
{
    if chs.len() == 0 {
        None
    } else {
        match first_named(chs.drop_last(), name) {
            Some(i) => Some(i),
            None => if chs.last().name@ == name {
                Some(chs.len() - 1)
            } else {
                None
            },
        }
    }
}

/// `chs` without the channels named `name`, in order.
pub open spec fn without_named(chs: Seq<Channel>, name: Seq<char>) -> Seq<Channel>
    decreases chs.len(),
{
    if chs.len() == 0 {
        chs
    } else if chs.last().name@ == name {
        without_named(chs.drop_last(), name)
    } else {
        without_named(chs.drop_last(), name).push(chs.last())
    }
}

/// `first_with_app` is the first position whose channel lists the app.
pub proof fn lemma_first_with_app(chs: Seq<Channel>, app: Seq<char>, i: int)
    requires
        0 <= i <= chs.len(),
        forall|j: int| 0 <= j < i ==> !app_listed(#[trigger] chs[j].applications@, app),
        i < chs.len() ==> app_listed(chs[i].applications@, app),
    ensures
        first_with_app(chs, app) == if i < chs.len() { Some(i) } else { None::<int> },
    decreases chs.len(),
{
    if chs.len() > 0 {
        if i == chs.len() {
            lemma_first_with_app(chs.drop_last(), app, i - 1);
        } else {
            lemma_first_with_app(chs.drop_last(), app, if i < chs.len() - 1 { i } else { chs.len() - 1 });
        }
    }
}

/// `first_named` is the first position whose channel has the name.
pub proof fn lemma_first_named(chs: Seq<Channel>, name: Seq<char>, i: int)
    requires
        0 <= i <= chs.len(),
        forall|j: int| 0 <= j < i ==> (#[trigger] chs[j]).name@ != name,
        i < chs.len() ==> chs[i].name@ == name,
    ensures
        first_named(chs, name) == if i < chs.len() { Some(i) } else { None::<int> },
    decreases chs.len(),
{
    if chs.len() > 0 {
        if i == chs.len() {
            lemma_first_named(chs.drop_last(), name, i - 1);
        } else {
            lemma_first_named(chs.drop_last(), name, if i < chs.len() - 1 { i } else { chs.len() - 1 });
        }
    }
}

impl Config {
    pub fn find_channel_index_for_app(&self, app_name: &str) -> (r: Option<usize>)
        ensures
            match r {
                Some(i) => first_with_app(self.channels@, app_name@) == Some(i as int) && i < self.channels@.len(),
                None => first_with_app(self.channels@, app_name@) is None,
            },
    {
        let mut i: usize = 0;
        while i < self.channels.len()
            invariant
                i <= self.channels.len(),
                forall|j: int| 0 <= j < i ==> !app_listed(#[trigger] self.channels@[j].applications@, app_name@),
            decreases self.channels.len() - i,
        {
            if self.channels[i].matches_application(app_name) {
                proof {
                    lemma_first_with_app(self.channels@, app_name@, i as int);
                }
                return Some(i);
            }
            i += 1;
        }
        proof {
            lemma_first_with_app(self.channels@, app_name@, i as int);
        }
        None
    }

    /// The first channel that lists an application.
    pub fn find_channel_for_app(&self, app_name: &str) -> (r: Option<&Channel>)
        ensures
            match first_with_app(self.channels@, app_name@) {
                Some(i) => r == Some(&self.channels@[i]),
                None => r is None,
            },
    {
        match self.find_channel_index_for_app(app_name) {
            Some(i) => Some(&self.channels[i]),
            None => None,
        }
    }

    /// The position of the first channel named `name`.
    pub fn get_channel_index(&self, name: &str) -> (r: Option<usize>)
        ensures
            match r {
                Some(i) => first_named(self.channels@, name@) == Some(i as int) && i < self.channels@.len(),
                None => first_named(self.channels@, name@) is None,
            },
    {
        let mut i: usize = 0;
        while i < self.channels.len()
            invariant
                i <= self.channels.len(),
                forall|j: int| 0 <= j < i ==> (#[trigger] self.channels@[j]).name@ != name@,
            decreases self.channels.len() - i,
        {
            if str_eq(self.channels[i].name.as_str(), name) {
                proof {
                    lemma_first_named(self.channels@, name@, i as int);
                }
                return Some(i);
            }
            i += 1;
        }
        proof {
            lemma_first_named(self.channels@, name@, i as int);
        }
        None
    }

    /// The first channel named `name`.
    pub fn get_channel(&self, name: &str) -> (r: Option<&Channel>)
        ensures
            match first_named(self.channels@, name@) {
                Some(i) => r == Some(&self.channels@[i]),
                None => r is None,
            },
    {
        match self.get_channel_index(name) {
            Some(i) => Some(&self.channels[i]),
            None => None,
        }
    }

    /// Appends a new channel named `name` (see `Channel::new`) and gives it
    /// for changing in place.
    pub fn add_channel(&mut self, name: String) -> (r: &mut Channel)
        ensures
            final(self).channels@ == old(self).channels@.push(*final(r)),
            r.name == name,
            r.applications@.len() == 0,
            r.monitor_volume == DEFAULT_MONITOR_LEVEL_BITS,
            r.stream_volume == DEFAULT_STREAM_LEVEL_BITS,
            !r.monitor_muted && !r.stream_muted && !r.is_builtin,
    {
        self.channels.push(Channel::new(name));
        let last = self.channels.len() - 1;
        &mut self.channels[last]
    }

    /// The first channel that lists an application, for changing it in
    /// place.
    pub fn find_channel_for_app_mut(&mut self, app_name: &str) -> (r: Option<&mut Channel>)
        ensures
            match first_with_app(old(self).channels@, app_name@) {
                Some(i) => r matches Some(c) && *c == old(self).channels@[i]
                    && final(self).channels@ == old(self).channels@.update(i, *final(c)),
                None => r is None && final(self).channels@ == old(self).channels@,
            },
    {
        match self.find_channel_index_for_app(app_name) {
            Some(i) => Some(&mut self.channels[i]),
            None => None,
        }
    }

    /// Removes every channel named `name`; gives whether one was removed.
    pub fn remove_channel(&mut self, name: &str) -> (r: bool)
        ensures
            final(self).channels@ == without_named(old(self).channels@, name@),
            r == (first_named(old(self).channels@, name@) is Some),
    {
        let mut rest: Vec<Channel> = Vec::new();
        std::mem::swap(&mut rest, &mut self.channels);
        let ghost all = rest@;
        let n = rest.len();
        let mut kept: Vec<Channel> = Vec::new();
        let mut removed = false;
        let mut i: usize = 0;
        while i < n
            invariant
                i <= n,
                n == all.len(),
                all == old(self).channels@,
                rest@ == all.subrange(i as int, n as int),
                kept@ == without_named(all.take(i as int), name@),
                removed == (first_named(all.take(i as int), name@) is Some),
            decreases n - i,
        {
            assert(all.take(i as int + 1).drop_last() =~= all.take(i as int));
            let ch = rest.remove(0);
            assert(ch == all[i as int]);
            if str_eq(ch.name.as_str(), name) {
                removed = true;
            } else {
                kept.push(ch);
            }
            i += 1;
            assert(rest@ =~= all.subrange(i as int, n as int));
        }
        assert(all.take(n as int) =~= all);
        self.channels = kept;
        removed
    }

    /// The first channel named `name`, for changing it in place.
    pub fn get_channel_mut(&mut self, name: &str) -> (r: Option<&mut Channel>)
        ensures
            match first_named(old(self).channels@, name@) {
                Some(i) => r matches Some(c) && *c == old(self).channels@[i]
                    && final(self).channels@ == old(self).channels@.update(i, *final(c)),
                None => r is None && final(self).channels@ == old(self).channels@,
            },
    {
        match self.get_channel_index(name) {
            Some(i) => Some(&mut self.channels[i]),
            None => None,
        }
    }

    /// Moves the first channel named `name` to position `new_position`
    /// (the end when that is past it); nothing happens when there is no such
    /// channel.
    pub fn move_channel(&mut self, name: &str, new_position: usize)
        ensures
            match first_named(old(self).channels@, name@) {
                Some(i) => {
                    let without = old(self).channels@.remove(i);
                    let at = if new_position <= without.len() { new_position as int } else { without.len() as int };
                    final(self).channels@ == without.insert(at, old(self).channels@[i])
                },
                None => final(self).channels@ == old(self).channels@,
            },
    {
        match self.get_channel_index(name) {
            Some(i) => {
                let ch = self.channels.remove(i);
                let at = if new_position <= self.channels.len() { new_position } else { self.channels.len() };
                self.channels.insert(at, ch);
            },
            None => {},
        }
    }
}

/// A channel added under a name that no channel had is what
/// `Config::get_channel` then finds under that name.
pub proof fn law_added_channel_is_found(chs: Seq<Channel>, c: Channel)
    requires
        first_named(chs, c.name@) is None,
    ensures
        first_named(chs.push(c), c.name@) == Some(chs.len() as int),
{
    assert(chs.push(c).drop_last() =~= chs);
}

/// After `Config::remove_channel`, no channel has the name.
pub proof fn law_removed_channel_is_gone(chs: Seq<Channel>, name: Seq<char>)
    ensures
        first_named(without_named(chs, name), name) is None,
    decreases chs.len(),
{
    if chs.len() > 0 {
        law_removed_channel_is_gone(chs.drop_last(), name);
        if chs.last().name@ != name {
            assert(without_named(chs.drop_last(), name).push(chs.last()).drop_last() =~= without_named(
                chs.drop_last(),
                name,
            ));
        }
    }
}

/// `Config::move_channel` reorders the channels: it neither adds nor drops
/// one.
pub proof fn law_move_channel_keeps_channels(chs: Seq<Channel>, i: int, new_position: int)
    requires
        0 <= i < chs.len(),
        0 <= new_position,
    ensures
        ({
            let without = chs.remove(i);
            let at = if new_position <= without.len() { new_position } else { without.len() as int };
            without.insert(at, chs[i]).to_multiset() == chs.to_multiset()
        }),
{
    let without = chs.remove(i);
    let at = if new_position <= without.len() { new_position } else { without.len() as int };
    broadcast use vstd::seq_lib::group_seq_properties;
    chs.to_multiset_ensures();
    without.to_multiset_ensures();
    without.insert(at, chs[i]).to_multiset_ensures();
    assert(chs == chs.subrange(0, i) + seq![chs[i]] + chs.subrange(i + 1, chs.len() as int));
    assert(without == chs.subrange(0, i) + chs.subrange(i + 1, chs.len() as int));
    vstd::seq_lib::lemma_multiset_commutative(chs.subrange(0, i) + seq![chs[i]], chs.subrange(i + 1, chs.len() as int));
    vstd::seq_lib::lemma_multiset_commutative(chs.subrange(0, i), seq![chs[i]]);
    vstd::seq_lib::lemma_multiset_commutative(chs.subrange(0, i), chs.subrange(i + 1, chs.len() as int));
    let w = without.insert(at, chs[i]);
    assert(w == without.subrange(0, at) + seq![chs[i]] + without.subrange(at, without.len() as int));
    assert(without == without.subrange(0, at) + without.subrange(at, without.len() as int));
    vstd::seq_lib::lemma_multiset_commutative(without.subrange(0, at) + seq![chs[i]], without.subrange(at, without.len() as int));
    vstd::seq_lib::lemma_multiset_commutative(without.subrange(0, at), seq![chs[i]]);
    vstd::seq_lib::lemma_multiset_commutative(without.subrange(0, at), without.subrange(at, without.len() as int));
}

} // verus!
