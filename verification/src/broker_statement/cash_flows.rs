use vstd::prelude::*;

use crate::currency::{Cash, CashView};
use crate::time::Date;

verus! {

/// What a [`CashFlowType`] stands for.
pub enum CashFlowTypeView {
    Dividend { issuer: Seq<char> },
    Tax { issuer: Seq<char> },
}

/// What a cash flow is: the income from a dividend of an issuer, or the tax withheld from it.
#[derive(Debug)]
pub enum CashFlowType {
    Dividend { issuer: String },
    Tax { issuer: String },
}

impl View for CashFlowType {
    type V = CashFlowTypeView;

    open spec fn view(&self) -> CashFlowTypeView {
        match self {
            CashFlowType::Dividend { issuer } => CashFlowTypeView::Dividend { issuer: issuer@ },
            CashFlowType::Tax { issuer } => CashFlowTypeView::Tax { issuer: issuer@ },
        }
    }
}

/// What a [`CashFlow`] stands for.
pub struct CashFlowView {
    pub date: Date,
    pub amount: CashView,
    pub type_: CashFlowTypeView,
}

/// One movement of cash on the account, kept for reports.
#[derive(Debug)]
pub struct CashFlow {
    pub date: Date,
    pub amount: Cash,
    pub type_: CashFlowType,
}

impl View for CashFlow {
    type V = CashFlowView;

    open spec fn view(&self) -> CashFlowView {
        CashFlowView { date: self.date, amount: self.amount@, type_: self.type_@ }
    }
}

} // verus!
