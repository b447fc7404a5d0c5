//! Records: spans together with the register values to write there.

use vstd::prelude::*;

use crate::register::{
    storage_view_wf, storage_words, IdRegister, MeasurementRegister, RegisterStorage,
    RegisterValueStorage, ValueRegister, DetectRegister,
};
use crate::span::Span;

verus! {

/// Something that can be written: a span and the values for its registers.
pub trait Record: Span {
    spec fn record_values(&self) -> Seq<u16>;

    spec fn record_wf(&self) -> bool;

    fn values(&self) -> (r: Vec<u16>)
        requires
            self.record_wf(),
        ensures
            r@ == self.record_values(),
    ;
}

/// A start address and the values written from there.
#[derive(Debug)]
pub struct SimpleRecord {
    pub address: u16,
    pub values: Vec<u16>,
}

impl Span for SimpleRecord {
    open spec fn span_address(&self) -> u16 {
        self.address
    }

    open spec fn span_quantity(&self) -> u16 {
        (self.values@.len() % 0x1_0000) as u16
    }

    fn address(&self) -> (r: u16) {
        self.address
    }

    fn quantity(&self) -> (r: u16) {
        (self.values.len() % 0x1_0000) as u16
    }
}

impl Record for SimpleRecord {
    open spec fn record_values(&self) -> Seq<u16> {
        self.values@
    }

    open spec fn record_wf(&self) -> bool {
        true
    }

    fn values(&self) -> (r: Vec<u16>) {
        self.values.clone()
    }
}

impl Record for MeasurementRegister<RegisterValueStorage> {
    open spec fn record_values(&self) -> Seq<u16> {
        storage_words(self.storage@)
    }

    open spec fn record_wf(&self) -> bool {
        storage_view_wf(self.storage@)
    }

    fn values(&self) -> (r: Vec<u16>) {
        self.storage.values()
    }
}

impl Record for DetectRegister<RegisterValueStorage> {
    open spec fn record_values(&self) -> Seq<u16> {
        storage_words(self.storage@)
    }

    open spec fn record_wf(&self) -> bool {
        storage_view_wf(self.storage@)
    }

    fn values(&self) -> (r: Vec<u16>) {
        self.storage.values()
    }
}

impl Record for IdRegister<RegisterValueStorage> {
    open spec fn record_values(&self) -> Seq<u16> {
        storage_words(self.storage@)
    }

    open spec fn record_wf(&self) -> bool {
        storage_view_wf(self.storage@)
    }

    fn values(&self) -> (r: Vec<u16>) {
        self.storage.values()
    }
}

impl Record for ValueRegister<RegisterValueStorage> {
    open spec fn record_values(&self) -> Seq<u16> {
        storage_words(self.storage@)
    }

    open spec fn record_wf(&self) -> bool {
        storage_view_wf(self.storage@)
    }

    fn values(&self) -> (r: Vec<u16>) {
        self.storage.values()
    }
}

} // verus!
