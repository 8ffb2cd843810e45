//! The access gate: two independent predicates that a command must pass
//! before it runs. Neither has a side effect, and neither ever fails open.

use vstd::prelude::*;
use crate::model::Error;

verus! {

/// The mathematical content of the access configuration.
pub struct GateModel {
    pub allowed_channels: Seq<u64>,
    pub moderator_role: Seq<char>,
    pub review_channel: u64,
}

impl GateModel {
    /// At least one channel is allowed, and the moderator role has a name.
    pub open spec fn inv(self) -> bool {
        self.allowed_channels.len() > 0 && self.moderator_role.len() > 0
    }

    /// The channel is one of the allowed ones.
    pub open spec fn channel_allowed(self, channel_id: u64) -> bool {
        self.allowed_channels.contains(channel_id)
    }

    /// The directory answered, and the moderator role is among the roles
    /// that it reports for the actor.
    pub open spec fn role_allowed(self, lookup: Result<Seq<Seq<char>>, Error>) -> bool {
        match lookup {
            Ok(roles) => roles.contains(self.moderator_role),
            Err(_) => false,
        }
    }
}

/// The role names in a list, as plain text.
pub open spec fn names_of(roles: Seq<String>) -> Seq<Seq<char>> {
    Seq::new(roles.len(), |i: int| roles[i]@)
}

/// The names of the roles that a directory lookup reported, or its failure.
pub open spec fn lookup_model(lookup: Result<Vec<String>, Error>) -> Result<Seq<Seq<char>>, Error> {
    match lookup {
        Ok(roles) => Ok(names_of(roles@)),
        Err(e) => Err(e),
    }
}

/// The access gate, made once from the configuration and handed to whoever has to
/// admit a command.
#[derive(Debug)]
pub struct AccessGate {
    allowed_channels: Vec<u64>,
    moderator_role: String,
    review_channel: u64,
}

impl View for AccessGate {
    type V = GateModel;

    closed spec fn view(&self) -> GateModel {
        GateModel {
            allowed_channels: self.allowed_channels@,
            moderator_role: self.moderator_role@,
            review_channel: self.review_channel,
        }
    }
}

impl AccessGate {
    /// The configuration is complete.
    pub open spec fn wf(&self) -> bool {
        self@.inv()
    }

    /// Makes an access gate. A configuration without an allowed channel or
    /// without a role name is no configuration: the result is `None`.
    pub fn new(allowed_channels: Vec<u64>, moderator_role: String, review_channel: u64) -> (r:
        Option<AccessGate>)
        ensures
            match r {
                Some(gate) => gate.wf() && gate@ == (GateModel {
                    allowed_channels: allowed_channels@,
                    moderator_role: moderator_role@,
                    review_channel,
                }),
                None => allowed_channels@.len() == 0 || moderator_role@.len() == 0,
            },
    {
        if allowed_channels.len() == 0 || moderator_role.as_str().is_empty() {
            return None;
        }
        Some(AccessGate { allowed_channels, moderator_role, review_channel })
    }

    /// The channel to which review artifacts are posted.
    pub fn review_channel(&self) -> (r: u64)
        ensures
            r == self@.review_channel,
    {
        self.review_channel
    }

    /// The name of the role that makes an actor a moderator.
    pub fn moderator_role(&self) -> (r: &str)
        ensures
            r@ == self@.moderator_role,
    {
        self.moderator_role.as_str()
    }

    /// Whether a command may come from a channel: true if and only if the
    /// channel is one of the allowed ones.
    pub fn channel_allowed(&self, channel_id: u64) -> (r: bool)
        ensures
            r == self@.channel_allowed(channel_id),
    {
        let mut i: usize = 0;
        while i < self.allowed_channels.len()
            invariant
                0 <= i <= self.allowed_channels.len(),
                forall|j: int| 0 <= j < i ==> self.allowed_channels@[j] != channel_id,
            decreases self.allowed_channels.len() - i,
        {
            if self.allowed_channels[i] == channel_id {
                return true;
            }
            i = i + 1;
        }
        false
    }

    /// Whether the moderator role is among a list of role names.
    fn holds_role(&self, roles: &Vec<String>) -> (r: bool)
        ensures
            r == names_of(roles@).contains(self@.moderator_role),
    {
        let ghost names = names_of(roles@);
        let mut i: usize = 0;
        while i < roles.len()
            invariant
                0 <= i <= roles.len(),
                names == names_of(roles@),
                forall|j: int| 0 <= j < i ==> names[j] != self@.moderator_role,
            decreases roles.len() - i,
        {
            assert(names[i as int] == roles@[i as int]@);
            if roles[i] == self.moderator_role {
                assert(names.contains(self@.moderator_role));
                return true;
            }
            i = i + 1;
        }
        false
    }

    /// Whether an actor is a moderator, given what the directory reported
    /// of the actor's roles in the community: true if and only if the
    /// lookup succeeded and the moderator role is among them. A failed
    /// lookup gives `false`, never an error.
    pub fn role_allowed(&self, lookup: &Result<Vec<String>, Error>) -> (r: bool)
        ensures
            r == self@.role_allowed(lookup_model(*lookup)),
    {
        match lookup {
            Err(_) => false,
            Ok(roles) => self.holds_role(roles),
        }
    }

    /// Admits a command by its channel, or denies it.
    pub fn require_channel(&self, channel_id: u64) -> (r: Result<(), Error>)
        ensures
            r == if self@.channel_allowed(channel_id) {
                Ok::<(), Error>(())
            } else {
                Err(Error::Authorization)
            },
    {
        if self.channel_allowed(channel_id) {
            Ok(())
        } else {
            Err(Error::Authorization)
        }
    }

    /// Admits a command by the actor's role, or denies it. A failed lookup
    /// is a denial like any other.
    pub fn require_role(&self, lookup: &Result<Vec<String>, Error>) -> (r: Result<(), Error>)
        ensures
            r == if self@.role_allowed(lookup_model(*lookup)) {
                Ok::<(), Error>(())
            } else {
                Err(Error::Authorization)
            },
    {
        if self.role_allowed(lookup) {
            Ok(())
        } else {
            Err(Error::Authorization)
        }
    }
}

/// The role predicate fails closed: a failed lookup never admits, and a
/// successful one admits only an actor that holds the role.
pub proof fn lemma_role_gate_fails_closed(gate: GateModel, roles: Seq<Seq<char>>, failure: Error)
    ensures
        !gate.role_allowed(Err(failure)),
        gate.role_allowed(Ok(roles)) <==> exists|i: int|
            0 <= i < roles.len() && #[trigger] roles[i] == gate.moderator_role,
{
}

} // verus!
