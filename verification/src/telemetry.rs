use vstd::prelude::*;

use crate::brokers::Broker;

verus! {

/// What is sent of one run of the program: the command, and the brokers whose statements it
/// read.
#[derive(Debug)]
pub struct TelemetryRecord {
    command: String,
    brokers: Vec<String>,
}

impl Clone for TelemetryRecord {
    fn clone(&self) -> (r: TelemetryRecord)
        ensures
            r.command_view() == self.command_view(),
            r.brokers_view() == self.brokers_view(),
    {
        TelemetryRecord {
            command: self.command.clone(),
            brokers: crate::types::copy_texts(&self.brokers),
        }
    }
}

impl TelemetryRecord {
    /// The command of the run.
    pub closed spec fn command_view(&self) -> Seq<char> {
        self.command@
    }

    /// The names of the brokers of the run.
    pub closed spec fn brokers_view(&self) -> Seq<Seq<char>> {
        crate::types::views(self.brokers@)
    }

    pub fn command(&self) -> (r: &String)
        ensures
            r@ == self.command_view(),
    {
        &self.command
    }

    pub fn brokers(&self) -> (r: &Vec<String>)
        ensures
            crate::types::views(r@) == self.brokers_view(),
    {
        &self.brokers
    }
}

/// The brokers of a run, while they are gathered.
#[derive(Debug)]
pub struct TelemetryRecordBuilder {
    bcs: bool,
    firstrade: bool,
    interactive_brokers: bool,
    open: bool,
    tinkoff: bool,
}

/// The name of the broker, where it is one of the brokers, and nothing else.
pub open spec fn named_if(brokers: Set<Broker>, broker: Broker) -> Seq<Seq<char>> {
    if brokers.contains(broker) {
        seq![crate::brokers::broker_id(broker)]
    } else {
        Seq::empty()
    }
}

/// The names of the brokers in the order of the alphabet, each once.
pub open spec fn broker_ids(brokers: Set<Broker>) -> Seq<Seq<char>> {
    named_if(brokers, Broker::Bcs) + named_if(brokers, Broker::Firstrade) + named_if(
        brokers,
        Broker::InteractiveBrokers,
    ) + named_if(brokers, Broker::Open) + named_if(brokers, Broker::Tinkoff)
}

impl View for TelemetryRecordBuilder {
    type V = Set<Broker>;

    closed spec fn view(&self) -> Set<Broker> {
        Set::new(
            |broker: Broker|
                match broker {
                    Broker::Bcs => self.bcs,
                    Broker::Firstrade => self.firstrade,
                    Broker::InteractiveBrokers => self.interactive_brokers,
                    Broker::Open => self.open,
                    Broker::Tinkoff => self.tinkoff,
                },
        )
    }
}

impl TelemetryRecordBuilder {
    pub fn new() -> (r: TelemetryRecordBuilder)
        ensures
            r@ == Set::<Broker>::empty(),
    {
        let r = TelemetryRecordBuilder {
            bcs: false,
            firstrade: false,
            interactive_brokers: false,
            open: false,
            tinkoff: false,
        };
        assert(r@ =~= Set::<Broker>::empty());
        r
    }

    pub fn new_with_broker(broker: Broker) -> (r: TelemetryRecordBuilder)
        ensures
            r@ == Set::<Broker>::empty().insert(broker),
    {
        let mut record = TelemetryRecordBuilder::new();
        record.add_broker(broker);
        record
    }

    pub fn add_broker(&mut self, broker: Broker)
        ensures
            final(self)@ == old(self)@.insert(broker),
    {
        match broker {
            Broker::Bcs => {
                self.bcs = true;
            },
            Broker::Firstrade => {
                self.firstrade = true;
            },
            Broker::InteractiveBrokers => {
                self.interactive_brokers = true;
            },
            Broker::Open => {
                self.open = true;
            },
            Broker::Tinkoff => {
                self.tinkoff = true;
            },
        }
        assert(self@ =~= old(self)@.insert(broker));
    }

    /// The record of a run of the command, with the names of the brokers in the order of the
    /// alphabet.
    pub fn build(self, command: &str) -> (r: TelemetryRecord)
        ensures
            r.command_view() == command@,
            r.brokers_view() == broker_ids(self@),
    {
        let mut brokers: Vec<String> = Vec::new();
        if self.bcs {
            brokers.push(Broker::Bcs.id().to_owned());
        }
        if self.firstrade {
            brokers.push(Broker::Firstrade.id().to_owned());
        }
        if self.interactive_brokers {
            brokers.push(Broker::InteractiveBrokers.id().to_owned());
        }
        if self.open {
            brokers.push(Broker::Open.id().to_owned());
        }
        if self.tinkoff {
            brokers.push(Broker::Tinkoff.id().to_owned());
        }
        let r = TelemetryRecord { command: command.to_owned(), brokers };
        assert(r.brokers_view() =~= broker_ids(self@));
        r
    }
}

/// What to do with the records that are stored when the program starts.
#[derive(Clone, Copy, Debug, PartialEq, Eq, Structural)]
pub struct LoadPlan {
    /// How many of the oldest records are dropped unsent.
    pub dropped: usize,
    /// The number of the last record that is dropped, where any is.
    pub delete_through: Option<i64>,
    /// The number of the last record that is sent, where any is.
    pub last_record_id: Option<i64>,
}

/// The plan for the stored records with the given numbers, oldest first, where at most
/// `max_records` may be sent: the oldest beyond that many are dropped, and the rest is sent.
pub open spec fn load_plan(ids: Seq<i64>, max_records: int) -> LoadPlan {
    let dropped = if ids.len() > max_records {
        ids.len() - max_records
    } else {
        0
    };
    LoadPlan {
        dropped: dropped as usize,
        delete_through: if dropped > 0 {
            Some(ids[dropped - 1])
        } else {
            None
        },
        last_record_id: if dropped < ids.len() {
            Some(ids[ids.len() - 1])
        } else {
            None
        },
    }
}

/// Plans what to do with the stored records.
pub fn plan_load(ids: &Vec<i64>, max_records: usize) -> (r: LoadPlan)
    ensures
        r == load_plan(ids@, max_records as int),
{
    let n = ids.len();
    let dropped = if n > max_records {
        n - max_records
    } else {
        0
    };
    LoadPlan {
        dropped,
        delete_through: if dropped > 0 {
            Some(ids[dropped - 1])
        } else {
            None
        },
        last_record_id: if dropped < n {
            Some(ids[n - 1])
        } else {
            None
        },
    }
}

/// Whether the sender gets time to finish: it does where the number of records to send is a
/// multiple of the threshold.
pub fn extends_deadline(records: usize, flush_threshold: usize) -> (r: bool)
    requires
        flush_threshold > 0,
    ensures
        r == (records as int % flush_threshold as int == 0),
{
    records % flush_threshold == 0
}

/// The number of the last record that may be deleted after sending: that of the last record
/// sent, where the server took the records.
pub fn confirmed_records(delivered: bool, last_record_id: i64) -> (r: Option<i64>)
    ensures
        r == if delivered {
            Some(last_record_id)
        } else {
            None
        },
{
    if delivered {
        Some(last_record_id)
    } else {
        None
    }
}

} // verus!
