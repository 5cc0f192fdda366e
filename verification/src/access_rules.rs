//! The rules of a group: a text with a version, and whether members must
//! accept it.

use vstd::prelude::*;
use crate::types::{next_version, Rules, UpdatedRules, Version, Versioned, VersionedRules};

verus! {

/// The rules as the group keeps them.
#[derive(Debug)]
pub struct AccessRulesInternal {
    pub text: Versioned<String>,
    pub enabled: bool,
}

impl AccessRulesInternal {
    /// Whether an update would change anything: the flag or the text.
    pub open spec fn changed_by(&self, rules: UpdatedRules) -> bool {
        rules.enabled != self.enabled || self.text.value@ != rules.text@
    }

    /// The version after an update: it moves forward by one when the text
    /// changes and the update asks for a new version, and stays otherwise.
    pub open spec fn version_after(&self, rules: UpdatedRules) -> Version {
        if self.text.value@ != rules.text@ && rules.new_version {
            next_version(self.text.version)
        } else {
            self.text.version
        }
    }

    /// Rules at version zero.
    pub fn new(rules: Rules) -> (r: Self)
        ensures
            r.text.value == rules.text,
            r.text.version == 0,
            r.enabled == rules.enabled,
    {
        AccessRulesInternal { text: Versioned::new(rules.text, 0), enabled: rules.enabled }
    }

    /// Applies an update. Returns the version now in force if anything
    /// changed, and `None` if nothing did. The version never goes back.
    pub fn update(&mut self, rules: UpdatedRules) -> (r: Option<Version>)
        ensures
            r is Some == old(self).changed_by(rules),
            r matches Some(v) ==> v == final(self).text.version,
            final(self).text.version == old(self).version_after(rules),
            final(self).text.version >= old(self).text.version,
            final(self).enabled == rules.enabled,
            final(self).text.value@ == rules.text@,
            !old(self).changed_by(rules) ==> *final(self) == *old(self),
            old(self).text.value@ == rules.text@ ==> final(self).text == old(self).text,
            old(self).text.value@ != rules.text@ ==> final(self).text.value == rules.text,
    {
        let text_changed = self.text.value != rules.text;
        if rules.enabled != self.enabled || text_changed {
            if text_changed {
                self.text.update(rules.text, rules.new_version);
            }
            self.enabled = rules.enabled;
            Some(self.text.version)
        } else {
            None
        }
    }

    /// The text with its version, if the rules are enabled.
    pub fn text_if_enabled(&self) -> (r: Option<&Versioned<String>>)
        ensures
            r is Some == self.enabled,
            r matches Some(t) ==> *t == self.text,
    {
        if self.enabled {
            Some(&self.text)
        } else {
            None
        }
    }

    /// The rules without their version.
    pub fn to_rules(&self) -> (r: Rules)
        ensures
            r.text == self.text.value,
            r.enabled == self.enabled,
    {
        Rules { text: self.text.value.clone(), enabled: self.enabled }
    }

    /// The rules as shown to clients.
    pub fn to_versioned_rules(&self) -> (r: VersionedRules)
        ensures
            r.text == self.text.value,
            r.version == self.text.version,
            r.enabled == self.enabled,
    {
        VersionedRules { text: self.text.value.clone(), version: self.text.version, enabled: self.enabled }
    }
}

impl From<AccessRulesInternal> for Rules {
    fn from(rules: AccessRulesInternal) -> (r: Rules) {
        Rules { text: rules.text.value, enabled: rules.enabled }
    }
}

impl vstd::std_specs::convert::FromSpecImpl<AccessRulesInternal> for Rules {
    open spec fn obeys_from_spec() -> bool {
        true
    }

    open spec fn from_spec(rules: AccessRulesInternal) -> Rules {
        Rules { text: rules.text.value, enabled: rules.enabled }
    }
}

impl From<AccessRulesInternal> for VersionedRules {
    fn from(rules: AccessRulesInternal) -> (r: VersionedRules) {
        VersionedRules { text: rules.text.value, version: rules.text.version, enabled: rules.enabled }
    }
}

impl vstd::std_specs::convert::FromSpecImpl<AccessRulesInternal> for VersionedRules {
    open spec fn obeys_from_spec() -> bool {
        true
    }

    open spec fn from_spec(rules: AccessRulesInternal) -> VersionedRules {
        VersionedRules { text: rules.text.value, version: rules.text.version, enabled: rules.enabled }
    }
}

} // verus!
