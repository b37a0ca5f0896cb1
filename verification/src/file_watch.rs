//! The watch service: a thin, verified shell around the kernel's inotify
//! primitive.
//!
//! A [`FileWatch`] owns one inotify instance.  Directories are registered
//! one by one; a blocking wait hands back the raw notification records,
//! which are decoded into [`ChangeEvent`] values by verified code.  The
//! model of the service is the sequence of paths registered so far plus
//! whether the underlying instance is still held; releasing it is explicit,
//! total, and idempotent.

use vstd::prelude::*;

use crate::events::ChangeEvent;
use crate::events::decode_batch;

verus! {

/// What can go wrong inside the watch service.
#[derive(Clone, Copy, PartialEq, Eq, Structural, Debug)]
pub enum WatchError {
    /// The notification primitive could not be created.
    InitFailed,
    /// A directory could not be registered.
    RegisterFailed,
    /// A blocking wait failed or was interrupted before any event arrived.
    WaitFailed,
}

#[verifier::external_type_specification]
#[verifier::external_body]
pub struct ExInotify(inotify::Inotify);

/// Relies on inotify::Inotify::init: creates a fresh kernel notification
/// instance, failing only when the kernel refuses the resource.
#[verifier::external_body]
fn inotify_init() -> (r: Result<inotify::Inotify, WatchError>) {
    inotify::Inotify::init().map_err(|_| WatchError::InitFailed)
}

/// Relies on inotify::Watches::add: registers `path` with the kernel under
/// the given event mask, failing when the kernel rejects the path.
#[verifier::external_body]
fn add_watch_raw(ino: &mut inotify::Inotify, path: &str, mask: u32) -> (r: Result<
    (),
    WatchError,
>) {
    let m = inotify::WatchMask::from_bits_truncate(mask);
    match ino.watches().add(path, m) {
        Ok(_) => Ok(()),
        Err(_) => Err(WatchError::RegisterFailed),
    }
}

/// Relies on inotify::Inotify::read_events_blocking: blocks until change
/// records are available and hands each back as its subject name and raw
/// mask bits, in arrival order.  Which records arrive depends on the
/// outside world, so nothing is promised of the result.
#[verifier::external_body]
fn read_events_raw(ino: &mut inotify::Inotify) -> (r: Result<Vec<(String, u32)>, WatchError>) {
    let mut buffer = [0u8; 4096];
    match ino.read_events_blocking(&mut buffer) {
        Err(_) => Err(WatchError::WaitFailed),
        Ok(events) => Ok(
            events
                .map(|e| {
                    let name = e.name.map(|n| n.to_string_lossy().into_owned());
                    (name.unwrap_or_default(), e.mask.bits())
                })
                .collect(),
        ),
    }
}

/// Relies on inotify::Inotify::close: releases the kernel instance and with
/// it every registration it held; errors during teardown are swallowed.
#[verifier::external_body]
fn close_raw(ino: inotify::Inotify) {
    let _ = ino.close();
}

/// Watches a set of directories for changes.
///
/// Abstractly a `FileWatch` is the sequence of directory paths registered
/// so far, plus whether the underlying notification instance is still held.
pub struct FileWatch {
    inner: Option<inotify::Inotify>,
    watched: Ghost<Seq<Seq<char>>>,
}

impl FileWatch {
    /// Whether the underlying notification instance is still held.
    pub closed spec fn active(self) -> bool {
        self.inner is Some
    }

    /// The paths registered so far, in registration order.
    pub closed spec fn watched_paths(self) -> Seq<Seq<char>> {
        self.watched@
    }

    /// Creates a watch service with no registrations.
    pub fn new() -> (r: Result<FileWatch, WatchError>)
        ensures
            r matches Ok(w) ==> w.active() && w.watched_paths() == Seq::<Seq<char>>::empty(),
    {
        match inotify_init() {
            Ok(ino) => Ok(FileWatch { inner: Some(ino), watched: Ghost(Seq::empty()) }),
            Err(e) => Err(e),
        }
    }

    /// Registers one directory under the given event mask.  On success the
    /// path is appended to the registered set; on failure — including on a
    /// service already released — nothing changes.
    pub fn add_watch(&mut self, path: &str, mask: u32) -> (r: Result<(), WatchError>)
        ensures
            final(self).active() == old(self).active(),
            !old(self).active() ==> r is Err,
            r is Ok ==> final(self).watched_paths() == old(self).watched_paths().push(path@),
            r is Err ==> final(self).watched_paths() == old(self).watched_paths(),
    {
        let r = match self.inner.as_mut() {
            None => Err(WatchError::RegisterFailed),
            Some(ino) => add_watch_raw(ino, path, mask),
        };
        if r.is_ok() {
            self.watched = Ghost(self.watched@.push(path@));
        }
        r
    }

    /// Blocks until change events are available and returns them decoded,
    /// in arrival order.  Registrations are untouched; which events come
    /// back depends on the outside world, so the batch itself is not
    /// constrained.  A wait on an already released service fails.
    pub fn wait_for_events(&mut self) -> (r: Result<Vec<ChangeEvent>, WatchError>)
        ensures
            final(self).active() == old(self).active(),
            final(self).watched_paths() == old(self).watched_paths(),
            !old(self).active() ==> r is Err,
    {
        let raw = match self.inner.as_mut() {
            None => Err(WatchError::WaitFailed),
            Some(ino) => read_events_raw(ino),
        };
        match raw {
            Err(e) => Err(e),
            Ok(records) => Ok(decode_batch(records)),
        }
    }

    /// Releases the underlying notification instance and with it every
    /// registration.  Total and idempotent: releasing an already released
    /// service does nothing and reports no error.
    pub fn shutdown(&mut self)
        ensures
            !final(self).active(),
            final(self).watched_paths() == Seq::<Seq<char>>::empty(),
    {
        match self.inner.take() {
            Some(ino) => close_raw(ino),
            None => {},
        }
        self.watched = Ghost(Seq::empty());
    }
}

} // verus!
