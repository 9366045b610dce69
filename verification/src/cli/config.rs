//! What a server would do with its settings.

use super::args::Exit;
use crate::text::joined;
use vstd::prelude::*;

verus! {

/// The word for a secret that is there or not.
pub fn present(yes: bool) -> (r: &'static str)
    ensures
        r@ == if yes {
            "set"@
        } else {
            "missing"@
        },
{
    if yes {
        "set"
    } else {
        "missing"
    }
}

/// What the settings of a server say. Of secrets, only whether they are there.
#[derive(Debug)]
pub struct ServerSettings {
    pub master_key: bool,
    pub api_token: bool,
    pub discord_webhook_id: bool,
    pub discord_webhook_token: bool,
    /// The directory for objects.
    pub object_store_path: Option<String>,
    pub database_url: bool,
    pub database_schema: String,
}

impl ServerSettings {
    /// Objects go to Discord: both halves of the webhook are there.
    pub open spec fn uses_discord(self) -> bool {
        self.discord_webhook_id && self.discord_webhook_token
    }
}

/// Something that keeps a server from starting.
#[derive(PartialEq, Eq, Structural, Clone, Copy, Debug)]
pub enum Blocker {
    NoMasterKey,
    NoApiToken,
    NoObjectStore,
}

impl Blocker {
    /// `self` keeps a server with these settings from starting.
    pub open spec fn applies(self, settings: ServerSettings) -> bool {
        match self {
            Blocker::NoMasterKey => !settings.master_key,
            Blocker::NoApiToken => !settings.api_token,
            Blocker::NoObjectStore => !settings.uses_discord()
                && settings.object_store_path is None,
        }
    }

    /// What the operator is told.
    pub fn reason(self) -> (r: &'static str)
        ensures
            r@ == match self {
                Blocker::NoMasterKey => "MASTER_KEY is not set (openssl rand -hex 32)"@,
                Blocker::NoApiToken => "API_TOKEN is not set (openssl rand -hex 32)"@,
                Blocker::NoObjectStore => "set OBJECT_STORE_PATH, or the DISCORD_WEBHOOK_* pair"@,
            },
    {
        match self {
            Blocker::NoMasterKey => "MASTER_KEY is not set (openssl rand -hex 32)",
            Blocker::NoApiToken => "API_TOKEN is not set (openssl rand -hex 32)",
            Blocker::NoObjectStore => "set OBJECT_STORE_PATH, or the DISCORD_WEBHOOK_* pair",
        }
    }
}

/// `all` cut down to the blockers that apply, in their order.
pub open spec fn applying(all: Seq<Blocker>, settings: ServerSettings) -> Seq<Blocker> {
    all.filter(|b: Blocker| b.applies(settings))
}

/// Every blocker, in the order in which they are reported.
pub open spec fn all_blockers() -> Seq<Blocker> {
    seq![Blocker::NoMasterKey, Blocker::NoApiToken, Blocker::NoObjectStore]
}

/// Where a server with these settings keeps metadata.
pub open spec fn metadata_store(settings: ServerSettings) -> Seq<char> {
    if settings.database_url {
        "postgresql, schema "@ + settings.database_schema@
    } else {
        "in-memory (development only: lost on restart)"@
    }
}

/// Where a server with these settings keeps objects.
pub open spec fn object_store(settings: ServerSettings) -> Seq<char> {
    if settings.uses_discord() {
        "discord"@
    } else {
        match settings.object_store_path {
            Some(path) => path@,
            None => "not configured"@,
        }
    }
}

/// What a configuration check found.
#[derive(Debug)]
pub struct ConfigReport {
    /// Where metadata is kept.
    pub metadata: String,
    /// Where objects are kept.
    pub objects: String,
    pub master_key: &'static str,
    pub api_token: &'static str,
    /// What keeps the server from starting, in the order in which it is
    /// reported.
    pub blocking: Vec<Blocker>,
}

/// Says what a server with these settings would do.
pub fn check_settings(settings: &ServerSettings) -> (r: ConfigReport)
    ensures
        r.metadata@ == metadata_store(*settings),
        r.objects@ == object_store(*settings),
        r.master_key@ == if settings.master_key {
            "set"@
        } else {
            "missing"@
        },
        r.api_token@ == if settings.api_token {
            "set"@
        } else {
            "missing"@
        },
        r.blocking@ == applying(all_blockers(), *settings),
{
    let discord: bool = settings.discord_webhook_id && settings.discord_webhook_token;
    let mut blocking: Vec<Blocker> = Vec::new();
    if !settings.master_key {
        blocking.push(Blocker::NoMasterKey);
    }
    if !settings.api_token {
        blocking.push(Blocker::NoApiToken);
    }
    if !discord && settings.object_store_path.is_none() {
        blocking.push(Blocker::NoObjectStore);
    }
    proof {
        lemma_applying(*settings);
        assert(blocking@ =~= applying(all_blockers(), *settings));
    }
    let metadata = if settings.database_url {
        joined("postgresql, schema ", settings.database_schema.as_str())
    } else {
        "in-memory (development only: lost on restart)".to_owned()
    };
    let objects = if discord {
        "discord".to_owned()
    } else {
        match &settings.object_store_path {
            Some(path) => path.clone(),
            None => "not configured".to_owned(),
        }
    };
    ConfigReport {
        metadata,
        objects,
        master_key: present(settings.master_key),
        api_token: present(settings.api_token),
        blocking,
    }
}

impl ConfigReport {
    /// Whether the server would start.
    pub fn would_start(&self) -> (r: bool)
        ensures
            r == (self.blocking@.len() == 0),
    {
        self.blocking.len() == 0
    }

    /// How the check ends.
    pub fn exit(&self) -> (r: Exit)
        ensures
            r == if self.blocking@.len() == 0 {
                Exit::Success
            } else {
                Exit::Failure
            },
    {
        if self.would_start() {
            Exit::Success
        } else {
            Exit::Failure
        }
    }
}

pub(crate) proof fn lemma_applying(settings: ServerSettings)
    ensures
        applying(all_blockers(), settings) == (if settings.master_key {
            Seq::<Blocker>::empty()
        } else {
            seq![Blocker::NoMasterKey]
        }) + (if settings.api_token {
            Seq::<Blocker>::empty()
        } else {
            seq![Blocker::NoApiToken]
        }) + (if Blocker::NoObjectStore.applies(settings) {
            seq![Blocker::NoObjectStore]
        } else {
            Seq::<Blocker>::empty()
        }),
{
    let keeps = |b: Blocker| b.applies(settings);
    reveal(Seq::filter);
    let three = all_blockers();
    let two = three.drop_last();
    let one = two.drop_last();
    let zero = one.drop_last();
    assert(zero.filter(keeps) =~= Seq::<Blocker>::empty());
    assert(one.last() == Blocker::NoMasterKey);
    assert(two.last() == Blocker::NoApiToken);
    assert(three.last() == Blocker::NoObjectStore);
    let first = if settings.master_key {
        Seq::<Blocker>::empty()
    } else {
        seq![Blocker::NoMasterKey]
    };
    let second = if settings.api_token {
        Seq::<Blocker>::empty()
    } else {
        seq![Blocker::NoApiToken]
    };
    let third = if Blocker::NoObjectStore.applies(settings) {
        seq![Blocker::NoObjectStore]
    } else {
        Seq::<Blocker>::empty()
    };
    assert(one.filter(keeps) =~= first);
    assert(two.filter(keeps) =~= first + second);
    assert(three.filter(keeps) =~= first + second + third);
}

/// A server starts exactly if it has both secrets and somewhere to put
/// objects, and where it does not, each thing that is missing is reported.
pub proof fn server_starts_if_nothing_is_missing(settings: ServerSettings)
    ensures
        applying(all_blockers(), settings).len() == 0 <==> settings.master_key
            && settings.api_token && (settings.uses_discord()
            || settings.object_store_path is Some),
        forall|b: Blocker| #[trigger]
            applying(all_blockers(), settings).contains(b) <==> b.applies(settings),
{
    lemma_applying(settings);
    let found = applying(all_blockers(), settings);
    let first = if settings.master_key {
        Seq::<Blocker>::empty()
    } else {
        seq![Blocker::NoMasterKey]
    };
    let second = if settings.api_token {
        Seq::<Blocker>::empty()
    } else {
        seq![Blocker::NoApiToken]
    };
    assert forall|b: Blocker| #[trigger] found.contains(b) <==> b.applies(settings) by {
        match b {
            Blocker::NoMasterKey => {
                if !settings.master_key {
                    assert(found[0] == b);
                }
            },
            Blocker::NoApiToken => {
                if !settings.api_token {
                    assert(found[first.len() as int] == b);
                }
            },
            Blocker::NoObjectStore => {
                if b.applies(settings) {
                    assert(found[(first + second).len() as int] == b);
                }
            },
        }
    }
}

} // verus!
