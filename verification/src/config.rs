//! The configuration of a run, with the batch of exercises drawn from its seed.

use crate::tasks::{batch_of, batch_view, GenerateError, Task};
use crate::TASKS_AMOUNT;
use vstd::prelude::*;

verus! {

/// What a run is configured with.
#[derive(Clone, Debug)]
pub struct Data {
    /// Address on which clients connect for the handshake.
    pub tcp_address: String,
    /// Address from which the datagrams are sent.
    pub udp_address: String,
    /// Seed of the batch.
    pub seed: u64,
    /// The secret that a client has to present.
    pub init_flag: u64,
    /// The token that a client gets for a batch passed.
    pub final_flag: u64,
    /// The batch, once it has been drawn.
    pub tasks: Option<Vec<Task>>,
}

impl Data {
    /// The batch, once it has been drawn.
    pub open spec fn batch(&self) -> Option<Seq<Task>> {
        match self.tasks {
            Some(tasks) => Some(tasks@),
            None => None,
        }
    }

    /// A configuration whose batch is not drawn yet.
    pub fn new(
        tcp_address: String,
        udp_address: String,
        seed: u64,
        init_flag: u64,
        final_flag: u64,
    ) -> (data: Data)
        ensures
            data.batch() is None,
            data.tcp_address == tcp_address,
            data.udp_address == udp_address,
            data.seed == seed,
            data.init_flag == init_flag,
            data.final_flag == final_flag,
    {
        Data { tcp_address, udp_address, seed, init_flag, final_flag, tasks: None }
    }

    /// The batch of the run.
    pub fn get_tasks(&self) -> (tasks: &Vec<Task>)
        requires
            self.batch() is Some,
        ensures
            Some(tasks@) == self.batch(),
    {
        self.tasks.as_ref().unwrap()
    }
}

/// A configuration that is complete: its batch is drawn.
#[derive(Clone, Debug)]
pub struct Config {
    data: Data,
}

impl Config {
    /// The configuration that is held.
    pub closed spec fn view_data(&self) -> Data {
        self.data
    }

    /// Completes a configuration by drawing the batch of its seed. The other
    /// fields stay as they are.
    pub fn complete(data: Data) -> (r: Result<Config, GenerateError>)
        ensures
            match batch_of(data.seed, TASKS_AMOUNT) {
                Some(batch) => r matches Ok(config) && config.view_data().batch() matches Some(
                    tasks,
                ) && batch_view(tasks) == batch && tasks.len() == TASKS_AMOUNT,
                None => r matches Err(e) && e == GenerateError::Exhausted,
            },
            r matches Ok(config) ==> config.view_data().tcp_address == data.tcp_address
                && config.view_data().udp_address == data.udp_address && config.view_data().seed
                == data.seed && config.view_data().init_flag == data.init_flag
                && config.view_data().final_flag == data.final_flag,
    {
        match Task::gen_tasks(data.seed) {
            Ok(tasks) => {
                let mut data = data;
                data.tasks = Some(tasks);
                Ok(Config { data })
            },
            Err(error) => Err(error),
        }
    }

    /// The configuration that is held, with its batch.
    pub fn data(&self) -> (data: &Data)
        ensures
            *data == self.view_data(),
    {
        &self.data
    }
}

} // verus!
