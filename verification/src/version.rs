//! The version strategy layer: binds the resolution and interception
//! machinery to the numeric configuration of one supported host version and
//! drives the refresh operation as a state machine.
//!
//! The strategy decides; the caller performs. `init` fixes the operation
//! entry point from the module base. `refresh_qrcode` is the decision
//! kernel: fed an event (cycle start, the outcome of an object resolution,
//! the outcome of the guarded foreign call), it updates the cached instance
//! and says what to do next, so the loop around it holds no policy of its
//! own.

use vstd::prelude::*;

use crate::WxError;

verus! {

/// Shared per-version configuration: the version label, the resolved
/// address of the refresh entry point, and the host module's name.
#[derive(Debug, Clone)]
pub struct WxWorkConfig {
    pub version: String,
    pub refresh_qrcode_addr: usize,
    pub module_name: String,
}

/// What the driving loop reports to the strategy.
#[derive(Clone, Copy, PartialEq, Eq, Debug)]
pub enum RefreshEvent {
    /// A refresh cycle begins.
    Begin,
    /// The object scan finished, with the first instance found, if any.
    ObjectResolved(Option<usize>),
    /// The guarded foreign call returned; `true` means it completed without
    /// crashing.
    CallReturned(bool),
}

/// What the strategy asks the driving loop to do next.
#[derive(Clone, Copy, PartialEq, Eq, Debug)]
pub enum RefreshAction {
    /// Resolve the target object instance from the type identity in the
    /// strategy's configuration.
    ResolveObject,
    /// Invoke the operation entry point on the instance, guarded against a
    /// crash in foreign code.
    CallRefresh { entry: usize, object: usize },
    /// The cycle is over, with this outcome.
    Done(Result<(), WxError>),
}

/// One supported host version, with its resolution state.
pub trait WxWorkBase: Sized {
    /// The fixed distance from the module base to the refresh entry point
    /// in this version's binary.
    spec fn entry_offset(&self) -> usize;

    /// The resolved refresh entry point.
    spec fn entry(&self) -> usize;

    /// The cached object instance, kept after the first successful
    /// resolution; later cycles reuse it.
    spec fn cached(&self) -> Option<usize>;

    /// Resolves and stores the numeric configuration `refresh_qrcode`
    /// needs: the entry point at the version's fixed offset from the
    /// module base.
    fn init(&mut self, module_base: usize) -> (r: Result<(), WxError>)
        requires
            module_base + old(self).entry_offset() <= usize::MAX,
        ensures
            r is Ok,
            final(self).entry() == module_base + old(self).entry_offset(),
            final(self).entry_offset() == old(self).entry_offset(),
            final(self).cached() == old(self).cached(),
    ;

    /// The refresh decision kernel. A cycle starts with `Begin`: a cached
    /// instance goes straight to the guarded call, otherwise the instance
    /// is resolved first and cached on success. A failed resolution is
    /// `NoInstanceFound`; a crashed call is `ForeignCallFailed`; both are
    /// expected, recoverable outcomes and the next cycle may retry.
    fn refresh_qrcode(&mut self, event: RefreshEvent) -> (r: RefreshAction)
        ensures
            final(self).entry() == old(self).entry(),
            final(self).entry_offset() == old(self).entry_offset(),
            match event {
                RefreshEvent::Begin => final(self).cached() == old(self).cached() && match old(
                    self,
                ).cached() {
                    Some(obj) => r == (RefreshAction::CallRefresh {
                        entry: old(self).entry(),
                        object: obj,
                    }),
                    None => r == RefreshAction::ResolveObject,
                },
                RefreshEvent::ObjectResolved(found) => match found {
                    Some(p) => if p != 0 {
                        final(self).cached() == Some(p) && r == (RefreshAction::CallRefresh {
                            entry: old(self).entry(),
                            object: p,
                        })
                    } else {
                        final(self).cached() == old(self).cached() && r == RefreshAction::Done(
                            Err(WxError::NoInstanceFound),
                        )
                    },
                    None => final(self).cached() == old(self).cached() && r == RefreshAction::Done(
                        Err(WxError::NoInstanceFound),
                    ),
                },
                RefreshEvent::CallReturned(ok) => final(self).cached() == old(self).cached() && (
                if ok {
                    r == RefreshAction::Done(Ok(()))
                } else {
                    r == RefreshAction::Done(Err(WxError::ForeignCallFailed))
                }),
            },
    ;
}

/// The strategy for host version 4.1.38.6006.
pub struct WxWork4_1_38_6006 {
    pub config: WxWorkConfig,
    pub qrcode_obj: Option<usize>,
}

impl WxWork4_1_38_6006 {
    /// A fresh strategy instance: version label and module name fixed, no
    /// entry point resolved, nothing cached.
    pub fn new() -> (r: WxWork4_1_38_6006)
        ensures
            r.config.version@ == "4.1.38.6006"@,
            r.config.module_name@ == "WxWork.exe"@,
            r.config.refresh_qrcode_addr == 0,
            r.entry_offset() == 0x34239A0usize,
            r.cached() == Option::<usize>::None,
    {
        WxWork4_1_38_6006 {
            config: WxWorkConfig {
                version: "4.1.38.6006".to_owned(),
                refresh_qrcode_addr: 0,
                module_name: "WxWork.exe".to_owned(),
            },
            qrcode_obj: None,
        }
    }
}

impl WxWorkBase for WxWork4_1_38_6006 {
    /// The refresh entry point sits at this fixed offset in the 4.1.38.6006
    /// binary.
    open spec fn entry_offset(&self) -> usize {
        0x34239A0usize
    }

    open spec fn entry(&self) -> usize {
        self.config.refresh_qrcode_addr
    }

    open spec fn cached(&self) -> Option<usize> {
        self.qrcode_obj
    }

    fn init(&mut self, module_base: usize) -> (r: Result<(), WxError>) {
        self.config.refresh_qrcode_addr = module_base + 0x34239A0;
        Ok(())
    }

    fn refresh_qrcode(&mut self, event: RefreshEvent) -> (r: RefreshAction) {
        match event {
            RefreshEvent::Begin => {
                match self.qrcode_obj {
                    Some(obj) => RefreshAction::CallRefresh {
                        entry: self.config.refresh_qrcode_addr,
                        object: obj,
                    },
                    None => RefreshAction::ResolveObject,
                }
            },
            RefreshEvent::ObjectResolved(found) => {
                match found {
                    Some(p) => {
                        if p != 0 {
                            self.qrcode_obj = Some(p);
                            RefreshAction::CallRefresh {
                                entry: self.config.refresh_qrcode_addr,
                                object: p,
                            }
                        } else {
                            RefreshAction::Done(Err(WxError::NoInstanceFound))
                        }
                    },
                    None => RefreshAction::Done(Err(WxError::NoInstanceFound)),
                }
            },
            RefreshEvent::CallReturned(ok) => {
                if ok {
                    RefreshAction::Done(Ok(()))
                } else {
                    RefreshAction::Done(Err(WxError::ForeignCallFailed))
                }
            },
        }
    }
}

/// Maps a version label to its strategy. An unknown label is a normal
/// outcome: that version is unsupported.
pub fn create_wxwork_instance(version: &str) -> (r: Option<WxWork4_1_38_6006>)
    ensures
        r is Some <==> version@ == "4.1.38.6006"@,
        match r {
            Some(w) => w.cached() == Option::<usize>::None && w.entry_offset() == 0x34239A0usize
                && w.config.refresh_qrcode_addr == 0,
            None => true,
        },
{
    let v = version.to_owned();
    let t = "4.1.38.6006".to_owned();
    if v == t {
        Some(WxWork4_1_38_6006::new())
    } else {
        None
    }
}

} // verus!
