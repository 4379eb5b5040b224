//! The application-service root: configuration, caches, registry and log.
//!
//! One value of `ApplicationServiceInner` wires the whole core together.
//! The HTTP listener, the homeserver client and the device loops live
//! outside; they call in here with plain values and read back plain
//! responses. The transaction flow is split in two: `begin_transaction`
//! answers replayed transaction ids from the log, and
//! `finish_transaction` records the outcome of a fresh one — a response
//! once recorded is the one every later request with that id sees.

use vstd::prelude::*;

use crate::error::Error;
use crate::registry::EventHandlerStore;
use crate::registration::is_valid_mxid;
use crate::registration::make_mxid;
use crate::registration::spec_valid_mxid;
use crate::room::RoomKind;
use crate::room::RoomStore;
use crate::server::create_error_response;
use crate::server::is_autorized;
use crate::server::spec_error_body;
use crate::transaction::CachedResponse;
use crate::transaction::TransactionLog;
use crate::transaction::spec_record;
use crate::transaction::transaction_outcome;
use crate::types::Config;
use crate::user::User;
use crate::user::UserStore;

verus! {

/// The wired appservice core.
pub struct ApplicationServiceInner {
    pub mxid: String,
    pub config: Config,
    pub room_store: RoomStore,
    pub user_store: UserStore,
    pub handler_store: EventHandlerStore,
    pub transaction_log: TransactionLog,
}

impl ApplicationServiceInner {
    /// All parts well formed.
    pub open spec fn wf(&self) -> bool {
        &&& self.room_store.wf()
        &&& self.user_store.wf()
        &&& self.handler_store.wf()
        &&& self.transaction_log.wf()
    }

    /// Wires an appservice from its configuration; the bot's Matrix id is
    /// built from the configured localpart and server name and must have
    /// the id shape.
    pub fn new(config: Config) -> (r: Result<ApplicationServiceInner, Error>)
        ensures
            spec_valid_mxid(
                "@"@ + config.appservice.username@ + ":"@ + config.homeserver.server_name@,
            ) <==> r is Ok,
            r matches Ok(inner) ==> {
                &&& inner.wf()
                &&& inner.mxid@ == "@"@ + config.appservice.username@ + ":"@
                    + config.homeserver.server_name@
                &&& inner.config == config
                &&& inner.room_store@ == Map::<Seq<char>, crate::room::RoomV>::empty()
                &&& inner.user_store@ == Map::<Seq<char>, User>::empty()
                &&& inner.handler_store@ == Map::<Seq<char>, Seq<u64>>::empty()
                &&& inner.transaction_log@ == Map::<Seq<char>, CachedResponse>::empty()
            },
            r matches Err(e) ==> e is IdParse,
    {
        let mxid = make_mxid(&config.appservice.username, &config.homeserver.server_name);
        if !is_valid_mxid(&mxid) {
            return Err(Error::IdParse(mxid));
        }
        Ok(
            ApplicationServiceInner {
                mxid,
                config,
                room_store: RoomStore::new(),
                user_store: UserStore::new(),
                handler_store: EventHandlerStore::new(),
                transaction_log: TransactionLog::new(),
            },
        )
    }

    /// The configuration.
    pub fn config(&self) -> (r: &Config)
        ensures
            r == self.config,
    {
        &self.config
    }

    /// Whether the presented bearer token is the configured `hs_token`.
    pub fn is_autorized(&self, token: &String) -> (r: bool)
        ensures
            r == (token@ == self.config.appservice.hs_token@),
    {
        is_autorized(token, &self.config.appservice.hs_token)
    }

    /// The canonical error response for this appservice and status.
    pub fn create_error_response(&self, status: u16) -> (r: (u16, String))
        ensures
            r.0 == status,
            r.1@ == spec_error_body(self.config.appservice.id@, status),
    {
        create_error_response(&self.config.appservice.id, status)
    }

    /// The cached room under `room_id`, if any.
    pub fn get_room(&self, room_id: &String) -> (r: Option<&RoomKind>)
        requires
            self.wf(),
        ensures
            match r {
                Some(room) => self.room_store@.dom().contains(room_id@) && room@
                    == self.room_store@[room_id@] && room.wf(),
                None => !self.room_store@.dom().contains(room_id@),
            },
    {
        self.room_store.get(room_id)
    }

    /// The cached user under `mxid`; a string without the id shape names
    /// nobody.
    pub fn get_user(&self, mxid: &String) -> (r: Option<&User>)
        requires
            self.wf(),
        ensures
            match r {
                Some(user) => spec_valid_mxid(mxid@) && self.user_store@.dom().contains(mxid@)
                    && *user == self.user_store@[mxid@],
                None => !spec_valid_mxid(mxid@) || !self.user_store@.dom().contains(mxid@),
            },
    {
        if !is_valid_mxid(mxid) {
            return None;
        }
        self.user_store.get(mxid)
    }

    /// The bot user; it is owed once the bot was initialised.
    pub fn get_bot(&self) -> (r: Result<&User, Error>)
        requires
            self.wf(),
        ensures
            self.user_store@.dom().contains(self.mxid@) ==> (r matches Ok(user) && *user
                == self.user_store@[self.mxid@]),
            !self.user_store@.dom().contains(self.mxid@) ==> (r matches Err(e)
                && e is UserNotFound),
    {
        match self.user_store.get(&self.mxid) {
            Some(user) => Ok(user),
            None => Err(Error::UserNotFound(self.mxid.clone())),
        }
    }

    /// Creates (or re-creates, with an empty device slot) the user under
    /// `mxid`; a string without the id shape is refused.
    pub fn create_user(&mut self, mxid: &String) -> (r: Result<(), Error>)
        requires
            old(self).wf(),
        ensures
            final(self).wf(),
            final(self).mxid@ == old(self).mxid@,
            final(self).config == old(self).config,
            final(self).room_store@ == old(self).room_store@,
            final(self).transaction_log@ == old(self).transaction_log@,
            spec_valid_mxid(mxid@) ==> {
                &&& r is Ok
                &&& final(self).user_store@.dom() == old(self).user_store@.dom().insert(mxid@)
                &&& final(self).user_store@[mxid@].mxid@ == mxid@
                &&& final(self).user_store@[mxid@].device is None
                &&& forall|k: Seq<char>|
                    #[trigger] old(self).user_store@.dom().contains(k) && k != mxid@
                        ==> final(self).user_store@[k] == old(self).user_store@[k]
            },
            !spec_valid_mxid(mxid@) ==> final(self).user_store@ == old(self).user_store@ && (
            r matches Err(e) && e is IdParse),
    {
        if !is_valid_mxid(mxid) {
            return Err(Error::IdParse(mxid.clone()));
        }
        self.user_store.create_user(mxid.clone());
        Ok(())
    }

    /// Creates the bot user with an empty device slot.
    pub fn init_bot(&mut self) -> (r: Result<(), Error>)
        requires
            old(self).wf(),
            spec_valid_mxid(old(self).mxid@),
        ensures
            final(self).wf(),
            final(self).mxid@ == old(self).mxid@,
            final(self).config == old(self).config,
            final(self).room_store@ == old(self).room_store@,
            final(self).transaction_log@ == old(self).transaction_log@,
            r is Ok,
            final(self).user_store@.dom() == old(self).user_store@.dom().insert(old(self).mxid@),
            final(self).user_store@[old(self).mxid@].mxid@ == old(self).mxid@,
    {
        let mxid = self.mxid.clone();
        self.create_user(&mxid)
    }

    /// Answers a replayed transaction id from the log; a fresh id must be
    /// processed and then recorded with `finish_transaction`.
    pub fn begin_transaction(&self, txn_id: &String) -> (r: Option<(u16, String)>)
        requires
            self.wf(),
        ensures
            self.transaction_log@.dom().contains(txn_id@) ==> (r matches Some(resp) && resp.0
                == self.transaction_log@[txn_id@].status && resp.1@
                == self.transaction_log@[txn_id@].body@),
            !self.transaction_log@.dom().contains(txn_id@) ==> r is None,
    {
        match self.transaction_log.lookup(txn_id) {
            Some(cached) => {
                let status = cached.status;
                let body = cached.body.clone();
                Some((status, body))
            },
            None => None,
        }
    }

    /// Computes the response of a freshly processed transaction — the
    /// empty object on success, the canonical 500 on any failure — and
    /// records it for the transaction id. The recorded response is
    /// authoritative: replays and concurrent requests observe it.
    pub fn finish_transaction(&mut self, txn_id: String, failed: bool) -> (r: (u16, String))
        requires
            old(self).wf(),
        ensures
            final(self).wf(),
            final(self).mxid@ == old(self).mxid@,
            final(self).config == old(self).config,
            final(self).room_store@ == old(self).room_store@,
            final(self).user_store@ == old(self).user_store@,
            final(self).handler_store@ == old(self).handler_store@,
            exists|resp: CachedResponse|
                {
                    &&& #[trigger] spec_record(old(self).transaction_log@, txn_id@, resp)
                        == final(self).transaction_log@
                    &&& (failed ==> resp.status == 500 && resp.body@ == spec_error_body(
                        old(self).config.appservice.id@,
                        500,
                    ))
                    &&& (!failed ==> resp.status == 200 && resp.body@ == "{}"@)
                },
            final(self).transaction_log@.dom().contains(txn_id@),
            r.0 == final(self).transaction_log@[txn_id@].status,
            r.1@ == final(self).transaction_log@[txn_id@].body@,
    {
        let outcome = transaction_outcome(&self.config.appservice.id, failed);
        let response = CachedResponse { status: outcome.0, body: outcome.1 };
        let ghost resp = response;
        let r = self.transaction_log.record(txn_id, response);
        proof {
            assert(spec_record(old(self).transaction_log@, txn_id@, resp)
                == self.transaction_log@);
        }
        r
    }
}

} // verus!
