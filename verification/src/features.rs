//! Per-channel feature gating.
//!
//! A `FeatureSet` is a set over the closed enumeration of engine features;
//! `Features` maps channel names to their configured set.  Looking up a
//! channel that was never configured yields the empty set — never an error.

use vstd::prelude::*;
use crate::table::Table1;

verus! {

/// The closed enumeration of capabilities a channel can enable.
#[derive(Clone, Copy, PartialEq, Eq, Structural, Debug, Hash)]
pub enum Feature {
    /// Song requests and playback control.
    Song,
    /// Custom text commands.
    Command,
    /// Counter commands.
    Counter,
    /// After-stream reminders.
    AfterStream,
    /// Removal of messages matching the bad-words filter.
    BadWords,
    /// URL whitelisting.
    UrlWhitelist,
    /// Admin commands (title, game, uptime).
    Admin,
}

/// A set of features, with constant-time membership tests.
#[derive(Clone, Copy, PartialEq, Eq, Structural, Debug)]
pub struct FeatureSet {
    pub song: bool,
    pub command: bool,
    pub counter: bool,
    pub after_stream: bool,
    pub bad_words: bool,
    pub url_whitelist: bool,
    pub admin: bool,
}

impl FeatureSet {
    /// Membership of a feature in the set.
    pub open spec fn has(self, f: Feature) -> bool {
        match f {
            Feature::Song => self.song,
            Feature::Command => self.command,
            Feature::Counter => self.counter,
            Feature::AfterStream => self.after_stream,
            Feature::BadWords => self.bad_words,
            Feature::UrlWhitelist => self.url_whitelist,
            Feature::Admin => self.admin,
        }
    }

    /// The set with no features.
    pub open spec fn empty_spec() -> FeatureSet {
        FeatureSet {
            song: false,
            command: false,
            counter: false,
            after_stream: false,
            bad_words: false,
            url_whitelist: false,
            admin: false,
        }
    }

    /// A new, empty feature set.
    pub fn new() -> (r: Self)
        ensures
            r == Self::empty_spec(),
            forall|f: Feature| !r.has(f),
    {
        let r = FeatureSet {
            song: false,
            command: false,
            counter: false,
            after_stream: false,
            bad_words: false,
            url_whitelist: false,
            admin: false,
        };
        proof {
            assert forall|f: Feature| !r.has(f) by {}
        }
        r
    }

    /// Add one feature; all other memberships are unchanged.
    pub fn insert(&mut self, f: Feature)
        ensures
            final(self).has(f),
            forall|g: Feature| g != f ==> final(self).has(g) == old(self).has(g),
    {
        match f {
            Feature::Song => self.song = true,
            Feature::Command => self.command = true,
            Feature::Counter => self.counter = true,
            Feature::AfterStream => self.after_stream = true,
            Feature::BadWords => self.bad_words = true,
            Feature::UrlWhitelist => self.url_whitelist = true,
            Feature::Admin => self.admin = true,
        }
    }

    /// Membership test.
    pub fn contains(&self, f: Feature) -> (r: bool)
        ensures
            r == self.has(f),
    {
        match f {
            Feature::Song => self.song,
            Feature::Command => self.command,
            Feature::Counter => self.counter,
            Feature::AfterStream => self.after_stream,
            Feature::BadWords => self.bad_words,
            Feature::UrlWhitelist => self.url_whitelist,
            Feature::Admin => self.admin,
        }
    }
}

/// The features that are enabled, by channel.
pub struct Features {
    pub table: Table1<FeatureSet>,
}

impl Features {
    /// Whether the channel has a configured entry.
    pub open spec fn known(self, channel: Seq<char>) -> bool {
        self.table.spec_get(channel) is Some
    }

    /// The feature set the lookup yields: the configured set, or the empty
    /// set for an unknown channel.
    pub open spec fn features_of(self, channel: Seq<char>) -> FeatureSet {
        match self.table.spec_get(channel) {
            Some(s) => s,
            None => FeatureSet::empty_spec(),
        }
    }

    /// Distinct channels have distinct entries.
    pub open spec fn wf(self) -> bool {
        self.table.wf()
    }

    /// A registry with no channels.
    pub fn new() -> (r: Self)
        ensures
            r.wf(),
            forall|c: Seq<char>| !r.known(c),
    {
        Features { table: Table1::new() }
    }

    /// Insert the feature set for the given channel.
    pub fn insert(&mut self, channel: String, features: FeatureSet)
        requires
            old(self).wf(),
        ensures
            final(self).wf(),
            final(self).known(channel@),
            final(self).features_of(channel@) == features,
            forall|c2: Seq<char>|
                c2 != channel@ ==> final(self).features_of(c2) == old(self).features_of(c2)
                    && final(self).known(c2) == old(self).known(c2),
    {
        self.table.set(channel, features);
    }

    /// Get the feature set for the given channel, the empty set if the
    /// channel is unknown.
    pub fn features(&self, channel: &str) -> (r: FeatureSet)
        ensures
            r == self.features_of(channel@),
    {
        match self.table.get(channel) {
            Some(s) => *s,
            None => FeatureSet::new(),
        }
    }
}

/// Looking up a channel that was never configured yields the empty feature
/// set — the lookup is total and cannot fail.
pub proof fn lemma_features_unknown_channel(f: Features, channel: Seq<char>)
    requires
        !f.known(channel),
    ensures
        f.features_of(channel) == FeatureSet::empty_spec(),
        forall|x: Feature| !f.features_of(channel).has(x),
{
}

} // verus!
