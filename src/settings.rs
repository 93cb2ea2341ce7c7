use vstd::prelude::*;
use vstd::string::*;

use crate::errors::{Error, ErrorKind};
use crate::text::first_index;

verus! {

/// Binary used when the settings name none.
pub const DEFAULT_V2RAY_BIN: &'static str = "/usr/local/bin/v2up";

/// Where the daemon's binary is.
#[derive(Debug)]
pub struct V2Ray {
    pub bin: String,
}

/// Where the program logs.
#[derive(Debug)]
pub struct Log {
    pub location: String,
}

/// A feed of servers, keyed by its name. Times are seconds since the Unix
/// epoch.
#[derive(Debug)]
pub struct Subscription {
    pub name: String,
    pub url: String,
    pub added_at: i64,
    pub last_updated_at: i64,
}

/// The program's settings.
#[derive(Debug)]
pub struct Settings {
    pub filepath: String,
    pub v2ray: V2Ray,
    pub log: Log,
    pub subscriptions: Vec<Subscription>,
}

pub open spec fn names(subs: Seq<Subscription>) -> Seq<Seq<char>> {
    subs.map_values(|s: Subscription| s.name@)
}

/// Position of the subscription called `name`; the length when there is none.
pub open spec fn subscription_index(subs: Seq<Subscription>, name: Seq<char>) -> int {
    first_index(names(subs), name)
}

fn position(subs: &Vec<Subscription>, name: &str) -> (r: usize)
    ensures
        r == subscription_index(subs@, name@),
        r <= subs@.len(),
{
    let n = name.to_owned();
    let mut i: usize = 0;
    while i < subs.len() && !(subs[i].name == n)
        invariant
            i <= subs@.len(),
            n@ == name@,
            forall|j: int| 0 <= j < i ==> names(subs@)[j] != name@,
        decreases subs@.len() - i,
    {
        i = i + 1;
    }
    proof {
        crate::text::lemma_first_index(names(subs@), name@, i as int);
    }
    i
}

impl Settings {
    /// Registers a subscription; fails, changing nothing, when one with the
    /// same name is registered.
    pub fn add_subscription(&mut self, subscription: Subscription) -> (r: Result<(), Error>)
        ensures
            r is Ok <==> subscription_index(old(self).subscriptions@, subscription.name@)
                == old(self).subscriptions@.len(),
            r is Ok ==> final(self).subscriptions@ == old(self).subscriptions@.push(subscription),
            r matches Err(e) ==> e.kind == ErrorKind::DuplicateSubscription && final(self).subscriptions@ == old(self).subscriptions@,
            final(self).filepath == old(self).filepath,
    {
        let i = position(&self.subscriptions, subscription.name.as_str());
        if i < self.subscriptions.len() {
            return Err(
                Error::new(
                    ErrorKind::DuplicateSubscription,
                    "a subscription with this name exists".to_owned(),
                ),
            );
        }
        self.subscriptions.push(subscription);
        Ok(())
    }

    /// Forgets the subscription called `name`.
    pub fn remove_subscription(&mut self, name: &str) -> (r: Result<(), Error>)
        ensures
            r is Ok <==> subscription_index(old(self).subscriptions@, name@) < old(self).subscriptions@.len(),
            r is Ok ==> final(self).subscriptions@ == old(self).subscriptions@.remove(
                subscription_index(old(self).subscriptions@, name@),
            ),
            r matches Err(e) ==> e.kind == ErrorKind::SubscriptionNotFound && final(self).subscriptions@ == old(self).subscriptions@,
            final(self).filepath == old(self).filepath,
    {
        let i = position(&self.subscriptions, name);
        if i == self.subscriptions.len() {
            return Err(Error::new(ErrorKind::SubscriptionNotFound, "no such subscription".to_owned()));
        }
        self.subscriptions.remove(i);
        Ok(())
    }

    /// Records a poll of the subscription called `name` at time `now`: its
    /// update time moves only when the catalog changed.
    pub fn record_update(&mut self, name: &str, changed: bool, now: i64) -> (r: Result<(), Error>)
        ensures
            r is Ok <==> subscription_index(old(self).subscriptions@, name@) < old(self).subscriptions@.len(),
            r is Ok && changed ==> ({
                let i = subscription_index(old(self).subscriptions@, name@);
                final(self).subscriptions@ == old(self).subscriptions@.update(
                    i,
                    Subscription { last_updated_at: now, ..old(self).subscriptions@[i] },
                )
            }),
            !(r is Ok && changed) ==> final(self).subscriptions@ == old(self).subscriptions@,
            r matches Err(e) ==> e.kind == ErrorKind::SubscriptionNotFound,
            final(self).filepath == old(self).filepath,
    {
        let i = position(&self.subscriptions, name);
        if i == self.subscriptions.len() {
            return Err(Error::new(ErrorKind::SubscriptionNotFound, "no such subscription".to_owned()));
        }
        if changed {
            self.subscriptions[i].last_updated_at = now;
        }
        Ok(())
    }

    /// The daemon's binary: the one the settings name, else the default.
    pub fn v2ray_binary(&self) -> (r: &str)
        ensures
            self.v2ray.bin@.len() > 0 ==> r@ == self.v2ray.bin@,
            self.v2ray.bin@.len() == 0 ==> r@ == DEFAULT_V2RAY_BIN@,
    {
        if self.v2ray.bin.as_str().is_empty() {
            DEFAULT_V2RAY_BIN
        } else {
            self.v2ray.bin.as_str()
        }
    }
}

} // verus!
