//! The systems under test.
use vstd::prelude::*;
use vstd::string::*;

verus! {

/// A system that serves the benchmark's queries.
#[derive(Clone, Copy, Debug, PartialEq, Eq, Hash, Structural)]
pub enum Backend {
    /// A stock MySQL server.
    Mysql,
    /// Soup behind the MySQL shim, with its own set of queries.
    Soup,
    /// Soup behind the MySQL shim, with the queries rewritten for it.
    Soupy,
}

/// How many backends there are.
pub const BACKENDS: usize = 3;

/// The backend that takes the `i`th turn at each scale.
pub open spec fn turn_of(i: int) -> Backend {
    if i == 0 {
        Backend::Mysql
    } else if i == 1 {
        Backend::Soup
    } else {
        Backend::Soupy
    }
}

impl Backend {
    /// The backend's name, as it stands in messages, file names and the load log.
    pub open spec fn name_text(self) -> Seq<char> {
        match self {
            Backend::Mysql => "mysql"@,
            Backend::Soup => "soup"@,
            Backend::Soupy => "soupy"@,
        }
    }

    /// The directory of the benchmark client that is built for the backend.
    pub open spec fn client_dir_text(self) -> Seq<char> {
        match self {
            Backend::Mysql => "benchmarks"@,
            Backend::Soup => "benchmarks-soup"@,
            Backend::Soupy => "benchmarks-soupy"@,
        }
    }

    /// The address at which the client finds its database: MySQL runs on the server, the shim
    /// runs beside the client.
    pub open spec fn database_text(self, server_ip: Seq<char>) -> Seq<char> {
        match self {
            Backend::Mysql => server_ip,
            Backend::Soup | Backend::Soupy => "127.0.0.1"@,
        }
    }

    /// The backend's turn within each scale.
    pub open spec fn turn(self) -> int {
        match self {
            Backend::Mysql => 0,
            Backend::Soup => 1,
            Backend::Soupy => 2,
        }
    }

    /// The backend that takes the given turn at each scale.
    pub fn at_turn(turn: usize) -> (backend: Backend)
        requires
            turn < BACKENDS,
        ensures
            backend == turn_of(turn as int),
            backend.turn() == turn,
    {
        match turn {
            0 => Backend::Mysql,
            1 => Backend::Soup,
            _ => Backend::Soupy,
        }
    }

    /// The backend's turn within each scale.
    pub fn turn_index(&self) -> (turn: usize)
        ensures
            turn == self.turn(),
            turn < BACKENDS,
            turn_of(turn as int) == *self,
    {
        match self {
            Backend::Mysql => 0,
            Backend::Soup => 1,
            Backend::Soupy => 2,
        }
    }

    /// The backend's name, as it stands in messages, file names and the load log.
    pub fn name(&self) -> (name: &'static str)
        ensures
            name@ == self.name_text(),
    {
        match self {
            Backend::Mysql => "mysql",
            Backend::Soup => "soup",
            Backend::Soupy => "soupy",
        }
    }

    /// The directory of the benchmark client that is built for the backend.
    pub fn client_dir(&self) -> (dir: &'static str)
        ensures
            dir@ == self.client_dir_text(),
    {
        match self {
            Backend::Mysql => "benchmarks",
            Backend::Soup => "benchmarks-soup",
            Backend::Soupy => "benchmarks-soupy",
        }
    }

    /// The address at which the client finds its database.
    pub fn database<'a>(&self, server_ip: &'a str) -> (address: &'a str)
        ensures
            address@ == self.database_text(server_ip@),
    {
        match self {
            Backend::Mysql => server_ip,
            Backend::Soup | Backend::Soupy => "127.0.0.1",
        }
    }
}

/// The backends that still take part.
#[derive(Clone, Copy, Debug, PartialEq, Eq, Structural)]
pub struct Survivors {
    pub mysql: bool,
    pub soup: bool,
    pub soupy: bool,
}

impl Survivors {
    /// `backend` still takes part.
    pub open spec fn has(self, backend: Backend) -> bool {
        match backend {
            Backend::Mysql => self.mysql,
            Backend::Soup => self.soup,
            Backend::Soupy => self.soupy,
        }
    }

    /// The same backends but for `backend`.
    pub open spec fn without(self, backend: Backend) -> Survivors {
        match backend {
            Backend::Mysql => (Survivors { mysql: false, ..self }),
            Backend::Soup => (Survivors { soup: false, ..self }),
            Backend::Soupy => (Survivors { soupy: false, ..self }),
        }
    }

    /// Every backend.
    pub fn all() -> (survivors: Survivors)
        ensures
            forall|b: Backend| #[trigger] survivors.has(b),
            survivors == (Survivors { mysql: true, soup: true, soupy: true }),
    {
        Survivors { mysql: true, soup: true, soupy: true }
    }

    /// Tells whether `backend` still takes part.
    pub fn includes(&self, backend: Backend) -> (yes: bool)
        ensures
            yes == self.has(backend),
    {
        match backend {
            Backend::Mysql => self.mysql,
            Backend::Soup => self.soup,
            Backend::Soupy => self.soupy,
        }
    }

    /// Takes `backend` out, for good.
    pub fn drop_out(&mut self, backend: Backend)
        ensures
            *final(self) == old(self).without(backend),
            forall|b: Backend| #[trigger]
                final(self).has(b) <==> old(self).has(b) && b != backend,
    {
        match backend {
            Backend::Mysql => {
                self.mysql = false;
            },
            Backend::Soup => {
                self.soup = false;
            },
            Backend::Soupy => {
                self.soupy = false;
            },
        }
    }
}

/// Soup and Soupy have clients of their own, called after them; MySQL has the plain one.
pub proof fn clients_are_called_after_their_backends(backend: Backend)
    ensures
        backend.client_dir_text() == (if backend == Backend::Mysql {
            "benchmarks"@
        } else {
            "benchmarks-"@ + backend.name_text()
        }),
        backend.name_text() == (match backend {
            Backend::Mysql => "mysql"@,
            Backend::Soup => "soup"@,
            Backend::Soupy => "soupy"@,
        }),
{
    reveal_strlit("benchmarks-");
    reveal_strlit("benchmarks-soup");
    reveal_strlit("benchmarks-soupy");
    reveal_strlit("soup");
    reveal_strlit("soupy");
    assert("benchmarks-soup"@ == "benchmarks-"@ + "soup"@);
    assert("benchmarks-soupy"@ == "benchmarks-"@ + "soupy"@);
}

/// MySQL is reached at the server's own address, whatever it is. The others are reached on the
/// client itself, wherever the server is.
pub proof fn only_mysql_is_reached_on_the_server(backend: Backend, server_ip: Seq<char>)
    ensures
        backend == Backend::Mysql ==> backend.database_text(server_ip) == server_ip,
        backend != Backend::Mysql ==> backend.database_text(server_ip) == "127.0.0.1"@,
{
}

/// Every backend has its turn, and at every turn there is one: first MySQL, then Soup, then Soupy.
pub proof fn backends_take_turns(backend: Backend, turn: int)
    ensures
        0 <= backend.turn() < BACKENDS,
        turn_of(backend.turn()) == backend,
        0 <= turn < BACKENDS ==> turn_of(turn).turn() == turn,
        Backend::Mysql.turn() < Backend::Soup.turn() < Backend::Soupy.turn(),
{
}

/// Taking a backend out takes out that one and no other.
pub proof fn dropping_out_is_ones_own(survivors: Survivors, out: Backend, backend: Backend)
    ensures
        survivors.without(out).has(backend) <==> survivors.has(backend) && backend != out,
        survivors.has(Backend::Mysql) <==> survivors.mysql,
        survivors.has(Backend::Soup) <==> survivors.soup,
        survivors.has(Backend::Soupy) <==> survivors.soupy,
{
}

} // verus!
