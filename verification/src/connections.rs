//! The open connections, by their names.

use crate::abi::{error, error_view, IrodoriConnectorBuffer};
use crate::codec::json_text;
use crate::config::ConfigView;
use crate::entries::{
    find_last, last_for, lemma_map_of_absent, lemma_map_of_last, lemma_map_of_push,
    lemma_map_of_remove, lemma_map_of_update, map_of,
};
use crate::http::TrinoConnection;
use crate::json::JsonView;
use vstd::prelude::*;

verus! {

/// The open connections, seen from outside. The table is poisoned once a thread
/// has panicked while it held it.
#[verifier::ext_equal]
pub struct TableView {
    pub poisoned: bool,
    pub open: Map<Seq<char>, ConfigView>,
}

/// The open connections. Of entries with one name the last counts.
#[derive(Debug)]
pub struct ConnectionTable {
    pub poisoned: bool,
    pub open: Vec<(String, TrinoConnection)>,
}

/// The views of a list of named connections.
pub open spec fn named_view(open: Seq<(String, TrinoConnection)>) -> Seq<(Seq<char>, ConfigView)> {
    open.map_values(|e: (String, TrinoConnection)| (e.0@, e.1@))
}

impl View for ConnectionTable {
    type V = TableView;

    open spec fn view(&self) -> TableView {
        TableView { poisoned: self.poisoned, open: map_of(named_view(self.open@)) }
    }
}

/// The answer where the table is poisoned.
pub open spec fn poisoned_view() -> JsonView {
    error_view("connector.statePoisoned"@, "Connector connection state is poisoned."@)
}

/// The answer where there is no connection of that name.
pub open spec fn not_found_view(id: Seq<char>) -> JsonView {
    error_view("connector.connectionNotFound"@, "no open connection: "@ + id)
}

/// The connection of that name, or the answer where there is none to be had.
pub open spec fn connection_in(table: TableView, id: Seq<char>) -> Result<ConfigView, JsonView> {
    if table.poisoned {
        Err(poisoned_view())
    } else if table.open.contains_key(id) {
        Ok(table.open[id])
    } else {
        Err(not_found_view(id))
    }
}

/// The answer where the table is poisoned.
pub fn poisoned_response() -> (response: IrodoriConnectorBuffer)
    ensures
        response.holds(json_text(poisoned_view())),
{
    error("connector.statePoisoned", "Connector connection state is poisoned.".to_owned())
}

impl ConnectionTable {
    /// No open connections.
    pub fn new() -> (table: ConnectionTable)
        ensures
            table@ == (TableView { poisoned: false, open: Map::empty() }),
    {
        let table = ConnectionTable { poisoned: false, open: Vec::new() };
        assert(named_view(table.open@) =~= Seq::empty());
        table
    }

    /// Notes that a thread has panicked while it held the table.
    pub fn poison(&mut self)
        ensures
            final(self)@ == (TableView { poisoned: true, ..old(self)@ }),
    {
        self.poisoned = true;
    }

    /// The connection of that name, or the answer where there is none to be had.
    pub fn connection(&self, connection_id: &str) -> (r: Result<
        TrinoConnection,
        IrodoriConnectorBuffer,
    >)
        ensures
            match connection_in(self@, connection_id@) {
                Ok(config) => r matches Ok(found) && found@ == config,
                Err(answer) => r matches Err(response) && response.holds(json_text(answer)),
            },
    {
        if self.poisoned {
            return Err(poisoned_response());
        }
        let ghost named = named_view(self.open@);
        match find_last(&self.open, connection_id) {
            Some(at) => {
                proof {
                    assert forall|j: int| at < j < named.len() implies named[j].0
                        != connection_id@ by {
                        assert(self.open@[j].0@ != connection_id@);
                    }
                    assert(last_for(named, connection_id@, at as int));
                    lemma_map_of_last(named, connection_id@, at as int);
                }
                Ok(self.open[at].1.clone())
            },
            None => {
                proof {
                    assert forall|j: int| 0 <= j < named.len() implies named[j].0
                        != connection_id@ by {
                        assert(self.open@[j].0@ != connection_id@);
                    }
                    lemma_map_of_absent(named, connection_id@);
                }
                Err(
                    error(
                        "connector.connectionNotFound",
                        "no open connection: ".to_owned().concat(connection_id),
                    ),
                )
            },
        }
    }

    /// Opens a connection under that name, in place of one that is there.
    pub fn insert(&mut self, connection_id: String, connection: TrinoConnection)
        ensures
            final(self)@ == (TableView {
                open: old(self)@.open.insert(connection_id@, connection@),
                ..old(self)@
            }),
    {
        let ghost named = named_view(self.open@);
        match find_last(&self.open, connection_id.as_str()) {
            Some(at) => {
                proof {
                    assert forall|j: int| at < j < named.len() implies named[j].0
                        != connection_id@ by {
                        assert(self.open@[j].0@ != connection_id@);
                    }
                    assert(last_for(named, connection_id@, at as int));
                    lemma_map_of_update(named, connection_id@, connection@, at as int);
                }
                self.open.set(at, (connection_id, connection));
                assert(named_view(self.open@) =~= named.update(
                    at as int,
                    (connection_id@, connection@),
                ));
            },
            None => {
                proof {
                    lemma_map_of_push(named, connection_id@, connection@);
                }
                self.open.push((connection_id, connection));
                assert(named_view(self.open@) =~= named.push((connection_id@, connection@)));
            },
        }
    }

    /// Closes the connection of that name and says whether there was one.
    pub fn remove(&mut self, connection_id: &str) -> (existed: bool)
        ensures
            existed == old(self)@.open.contains_key(connection_id@),
            final(self)@ == (TableView {
                open: old(self)@.open.remove(connection_id@),
                ..old(self)@
            }),
    {
        let ghost before = self@;
        let mut existed = false;
        loop
            invariant
                before == old(self)@,
                self.poisoned == before.poisoned,
                self@.open.remove(connection_id@) == before.open.remove(connection_id@),
                existed ==> before.open.contains_key(connection_id@),
                !existed ==> self@ == before,
            decreases self.open@.len(),
        {
            let ghost named = named_view(self.open@);
            match find_last(&self.open, connection_id) {
                Some(at) => {
                    proof {
                        assert forall|j: int| at < j < named.len() implies named[j].0
                            != connection_id@ by {
                            assert(self.open@[j].0@ != connection_id@);
                        }
                        assert(last_for(named, connection_id@, at as int));
                        lemma_map_of_last(named, connection_id@, at as int);
                        lemma_map_of_remove(named, connection_id@, at as int);
                    }
                    let _closed = self.open.remove(at);
                    assert(named_view(self.open@) =~= named.remove(at as int));
                    existed = true;
                },
                None => {
                    proof {
                        assert forall|j: int| 0 <= j < named.len() implies named[j].0
                            != connection_id@ by {
                            assert(self.open@[j].0@ != connection_id@);
                        }
                        lemma_map_of_absent(named, connection_id@);
                        assert(self@.open =~= self@.open.remove(connection_id@));
                    }
                    return existed;
                },
            }
        }
    }
}

/// A connection is found under the name it is open under, with everything that was
/// configured for it; another name is answered with that it is not open, and a
/// poisoned table with that it is.
pub proof fn connections_are_found_under_their_names(
    table: TableView,
    id: Seq<char>,
    config: ConfigView,
)
    ensures
        !table.poisoned && table.open.contains_key(id) && table.open[id] == config ==> connection_in(
            table,
            id,
        ) == Ok::<ConfigView, JsonView>(config),
        !table.poisoned && !table.open.contains_key(id) ==> connection_in(table, id) == Err::<
            ConfigView,
            JsonView,
        >(error_view("connector.connectionNotFound"@, "no open connection: "@ + id)),
        table.poisoned ==> connection_in(table, id) == Err::<ConfigView, JsonView>(
            error_view("connector.statePoisoned"@, "Connector connection state is poisoned."@),
        ),
        poisoned_view() == error_view(
            "connector.statePoisoned"@,
            "Connector connection state is poisoned."@,
        ),
{
}

/// What is seen of the open connections is all there is to them: under each name
/// the last that was entered.
pub proof fn tables_are_seen_whole(table: ConnectionTable, i: int, id: Seq<char>)
    ensures
        table@.poisoned == table.poisoned,
        0 <= i < table.open@.len() && table.open@[i].0@ == id && (forall|j: int|
            i < j < table.open@.len() ==> (#[trigger] table.open@[j]).0@ != id)
            ==> table@.open.contains_key(id) && table@.open[id] == table.open@[i].1.config@,
        (forall|j: int| 0 <= j < table.open@.len() ==> (#[trigger] table.open@[j]).0@ != id)
            ==> !table@.open.contains_key(id),
{
    let named = named_view(table.open@);
    if 0 <= i < table.open@.len() && table.open@[i].0@ == id && (forall|j: int|
        i < j < table.open@.len() ==> (#[trigger] table.open@[j]).0@ != id) {
        assert forall|j: int| i < j < named.len() implies named[j].0 != id by {
            assert(table.open@[j].0@ != id);
        }
        assert(last_for(named, id, i));
        lemma_map_of_last(named, id, i);
    }
    if forall|j: int| 0 <= j < table.open@.len() ==> (#[trigger] table.open@[j]).0@ != id {
        assert forall|j: int| 0 <= j < named.len() implies named[j].0 != id by {
            assert(table.open@[j].0@ != id);
        }
        lemma_map_of_absent(named, id);
    }
}

} // verus!
