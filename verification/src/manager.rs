//! The transfers that are under way and their cancellation flags.
//!
//! A transfer is registered when it is started and released when it has
//! ended. While it is registered its flag can be set, once and for good.
//! The manager remembers every identifier it has issued, so the flag of
//! one transfer is never taken for that of another.

use vstd::prelude::*;
use vstd::string::*;
use crate::id_map::IdMap;
use crate::ident::{random_identifier, IDENTIFIER_LENGTH};
use crate::session::ConnectionPool;
use crate::transfer::{next, pending, InputView, Step, Transfer, TransferInput, TransferKind, event_view};
use crate::types::{ErrorKind, ErrorView, SftpError};

verus! {

/// The error of a transfer identifier that has been issued before.
pub open spec fn transfer_identifier_taken() -> ErrorView {
    ErrorView { kind: ErrorKind::Io, message: "Transfer identifier already issued"@ }
}

/// Whether every flag that is up in `before` and still there in `after`
/// is up in `after` too: a flag, once raised, is never lowered.
pub open spec fn flags_stay_raised(before: Map<Seq<char>, bool>, after: Map<Seq<char>, bool>) -> bool {
    forall|id: Seq<char>|
        before.dom().contains(id) && before[id] && after.dom().contains(id) ==> #[trigger] after[id]
}

/// The cancellation flags of the transfers under way, and every transfer
/// identifier issued so far.
pub struct TransferManager {
    flags: IdMap<bool>,
    issued: IdMap<()>,
}

impl TransferManager {
    /// Every registered transfer has an identifier that was issued.
    pub closed spec fn wf(&self) -> bool {
        &&& self.flags.wf()
        &&& self.issued.wf()
        &&& self.flags@.dom().subset_of(self.issued@.dom())
    }

    /// The cancellation flags of the registered transfers by identifier.
    /// This is one half of what the manager holds; `issued` is the other,
    /// and every contract that changes the manager speaks of both.
    pub closed spec fn flags(&self) -> Map<Seq<char>, bool> {
        self.flags@
    }

    /// Every identifier under which a transfer was ever registered,
    /// released or not.
    pub closed spec fn issued(&self) -> Set<Seq<char>> {
        self.issued@.dom()
    }

    /// The input that shows the transfer `id` its flag: a request to
    /// cancel where the transfer is registered with its flag up.
    pub open spec fn flag_input(&self, id: Seq<char>) -> InputView {
        InputView::Flag {
            cancel_requested: self.flags().dom().contains(id) && self.flags()[id],
        }
    }

    /// A registered transfer's identifier was issued, so no later
    /// transfer gets it.
    pub proof fn law_registered_ids_were_issued(&self)
        requires
            self.wf(),
        ensures
            self.flags().dom().subset_of(self.issued()),
    {
    }

    /// A manager without transfers.
    pub fn new() -> (manager: Self)
        ensures
            manager.wf(),
            manager.flags() == Map::<Seq<char>, bool>::empty(),
            manager.issued() == Set::<Seq<char>>::empty(),
    {
        let manager = TransferManager { flags: IdMap::new(), issued: IdMap::new() };
        assert(manager.issued() =~= Set::<Seq<char>>::empty());
        manager
    }

    /// Registers a transfer under `id` with its flag down and hands out
    /// the pending transfer, unless `id` was issued before.
    pub fn register(
        &mut self,
        id: String,
        kind: TransferKind,
        connection_id: String,
        local_path: String,
        remote_path: String,
    ) -> (r: Result<Transfer, SftpError>)
        requires
            old(self).wf(),
        ensures
            final(self).wf(),
            flags_stay_raised(old(self).flags(), final(self).flags()),
            match r {
                Ok(t) => !old(self).issued().contains(id@) && t@ == pending(
                    id@,
                    kind,
                    connection_id@,
                    local_path@,
                    remote_path@,
                ) && final(self).flags() == old(self).flags().insert(id@, false) && final(self).issued() == old(self).issued().insert(id@),
                Err(e) => old(self).issued().contains(id@) && e@ == transfer_identifier_taken()
                    && final(self).flags() == old(self).flags() && final(self).issued() == old(self).issued(),
            },
    {
        if self.issued.contains(id.as_str()) {
            return Err(
                SftpError::Io { message: String::from_str("Transfer identifier already issued") },
            );
        }
        self.issued.insert(id.clone(), ());
        self.flags.insert(id.clone(), false);
        assert(self.issued() =~= old(self).issued().insert(id@));
        Ok(Transfer::new(id, kind, connection_id, local_path, remote_path))
    }

    /// Raises the flag of the transfer that `id` names. The flag stays up
    /// until the transfer is released.
    pub fn cancel(&mut self, id: &str) -> (r: Result<(), SftpError>)
        requires
            old(self).wf(),
        ensures
            final(self).wf(),
            flags_stay_raised(old(self).flags(), final(self).flags()),
            final(self).issued() == old(self).issued(),
            match r {
                Ok(_) => old(self).flags().dom().contains(id@) && final(self).flags() == old(self).flags().insert(id@, true),
                Err(e) => !old(self).flags().dom().contains(id@) && e is NotFound && final(self).flags() == old(self).flags(),
            },
    {
        if self.flags.contains(id) {
            self.flags.insert(String::from_str(id), true);
            Ok(())
        } else {
            Err(SftpError::NotFound)
        }
    }

    /// Whether the transfer that `id` names is registered with its flag
    /// up.
    pub fn is_cancel_requested(&self, id: &str) -> (b: bool)
        requires
            self.wf(),
        ensures
            b == (self.flags().dom().contains(id@) && self.flags()[id@]),
    {
        match self.flags.get(id) {
            Some(flag) => *flag,
            None => false,
        }
    }

    /// Whether a transfer is registered under `id`.
    pub fn is_registered(&self, id: &str) -> (b: bool)
        requires
            self.wf(),
        ensures
            b == self.flags().dom().contains(id@),
    {
        self.flags.contains(id)
    }

    /// Shows a transfer its cancellation flag: the transfer takes the step
    /// of a `Flag` input that carries the flag as it stands in the table.
    pub fn poll(&self, transfer: &mut Transfer) -> (step: Step)
        requires
            self.wf(),
        ensures
            final(transfer)@ == next(old(transfer)@, self.flag_input(old(transfer)@.id)).transfer,
            event_view(step.event) == next(
                old(transfer)@,
                self.flag_input(old(transfer)@.id),
            ).event,
            step.directive == next(old(transfer)@, self.flag_input(old(transfer)@.id)).directive,
    {
        let cancel_requested = self.is_cancel_requested(transfer.id.as_str());
        transfer.step(TransferInput::Flag { cancel_requested })
    }

    /// Releases a transfer that has ended, and leaves one that has not
    /// registered. Says whether the transfer has ended.
    pub fn settle(&mut self, transfer: &Transfer) -> (ended: bool)
        requires
            old(self).wf(),
        ensures
            final(self).wf(),
            flags_stay_raised(old(self).flags(), final(self).flags()),
            ended == transfer.state.is_terminal(),
            final(self).issued() == old(self).issued(),
            final(self).flags() == if ended {
                old(self).flags().remove(transfer.id@)
            } else {
                old(self).flags()
            },
    {
        if transfer.state.is_terminal() {
            self.release(transfer.id.as_str());
            true
        } else {
            false
        }
    }

    /// Releases the transfer that `id` names, once it has ended. Says
    /// whether it was registered.
    pub fn release(&mut self, id: &str) -> (was_registered: bool)
        requires
            old(self).wf(),
        ensures
            final(self).wf(),
            flags_stay_raised(old(self).flags(), final(self).flags()),
            final(self).flags() == old(self).flags().remove(id@),
            final(self).issued() == old(self).issued(),
            was_registered == old(self).flags().dom().contains(id@),
    {
        self.flags.remove(id).is_some()
    }
}

/// What starting a transfer with a given identifier comes to: `NotFound`
/// where the session is not live, and else what `register` says.
pub fn start_transfer<T>(
    manager: &mut TransferManager,
    pool: &ConnectionPool<T>,
    id: String,
    kind: TransferKind,
    connection_id: &str,
    local_path: String,
    remote_path: String,
) -> (r: Result<Transfer, SftpError>)
    requires
        old(manager).wf(),
        pool.wf(),
    ensures
        final(manager).wf(),
        match r {
            Ok(t) => pool.sessions().dom().contains(connection_id@) && !old(manager).issued().contains(id@) && t@ == pending(
                id@,
                kind,
                connection_id@,
                local_path@,
                remote_path@,
            ) && final(manager).flags() == old(manager).flags().insert(id@, false) && final(manager).issued() == old(manager).issued().insert(id@),
            Err(e) => final(manager).flags() == old(manager).flags() && final(manager).issued()
                == old(manager).issued() && if pool.sessions().dom().contains(connection_id@) {
                old(manager).issued().contains(id@) && e@ == transfer_identifier_taken()
            } else {
                e is NotFound
            },
        },
{
    if !pool.contains(connection_id) {
        return Err(SftpError::NotFound);
    }
    manager.register(id, kind, String::from_str(connection_id), local_path, remote_path)
}

/// Starts an upload on a live session: registers it under a new random
/// identifier and hands out the pending transfer for its task to run. On
/// a live session it fails only where the identifier that was drawn had
/// been issued before, so it succeeds on a manager that has issued none.
pub fn start_upload<T>(
    manager: &mut TransferManager,
    pool: &ConnectionPool<T>,
    connection_id: &str,
    local_path: String,
    remote_path: String,
) -> (r: Result<Transfer, SftpError>)
    requires
        old(manager).wf(),
        pool.wf(),
    ensures
        final(manager).wf(),
        pool.sessions().dom().contains(connection_id@) && old(manager).issued() == Set::<
            Seq<char>,
        >::empty() ==> r is Ok,
        match r {
            Ok(t) => pool.sessions().dom().contains(connection_id@) && t@.id.len()
                == IDENTIFIER_LENGTH && !old(manager).issued().contains(t@.id) && t@ == pending(
                t@.id,
                TransferKind::Upload,
                connection_id@,
                local_path@,
                remote_path@,
            ) && final(manager).flags() == old(manager).flags().insert(t@.id, false) && final(manager).issued() == old(manager).issued().insert(t@.id),
            Err(e) => final(manager).flags() == old(manager).flags() && final(manager).issued()
                == old(manager).issued() && if pool.sessions().dom().contains(connection_id@) {
                e@ == transfer_identifier_taken()
            } else {
                e is NotFound
            },
        },
{
    start_transfer(
        manager,
        pool,
        random_identifier(),
        TransferKind::Upload,
        connection_id,
        local_path,
        remote_path,
    )
}

/// Starts a download on a live session: registers it under a new random
/// identifier and hands out the pending transfer for its task to run. On
/// a live session it fails only where the identifier that was drawn had
/// been issued before, so it succeeds on a manager that has issued none.
pub fn start_download<T>(
    manager: &mut TransferManager,
    pool: &ConnectionPool<T>,
    connection_id: &str,
    remote_path: String,
    local_path: String,
) -> (r: Result<Transfer, SftpError>)
    requires
        old(manager).wf(),
        pool.wf(),
    ensures
        final(manager).wf(),
        pool.sessions().dom().contains(connection_id@) && old(manager).issued() == Set::<
            Seq<char>,
        >::empty() ==> r is Ok,
        match r {
            Ok(t) => pool.sessions().dom().contains(connection_id@) && t@.id.len()
                == IDENTIFIER_LENGTH && !old(manager).issued().contains(t@.id) && t@ == pending(
                t@.id,
                TransferKind::Download,
                connection_id@,
                local_path@,
                remote_path@,
            ) && final(manager).flags() == old(manager).flags().insert(t@.id, false) && final(manager).issued() == old(manager).issued().insert(t@.id),
            Err(e) => final(manager).flags() == old(manager).flags() && final(manager).issued()
                == old(manager).issued() && if pool.sessions().dom().contains(connection_id@) {
                e@ == transfer_identifier_taken()
            } else {
                e is NotFound
            },
        },
{
    start_transfer(
        manager,
        pool,
        random_identifier(),
        TransferKind::Download,
        connection_id,
        local_path,
        remote_path,
    )
}

/// Asks the transfer that `transfer_id` names to stop. Fails with
/// `NotFound` where no such transfer is registered, as when it has ended.
pub fn cancel_transfer(manager: &mut TransferManager, transfer_id: &str) -> (r: Result<
    (),
    SftpError,
>)
    requires
        old(manager).wf(),
    ensures
        final(manager).wf(),
        final(manager).issued() == old(manager).issued(),
        match r {
            Ok(_) => old(manager).flags().dom().contains(transfer_id@) && final(manager).flags()
                == old(manager).flags().insert(transfer_id@, true),
            Err(e) => !old(manager).flags().dom().contains(transfer_id@) && e is NotFound
                && final(manager).flags() == old(manager).flags(),
        },
{
    manager.cancel(transfer_id)
}

} // verus!
