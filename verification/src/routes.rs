//! The layout of the server: what is attached to it, which handlers are
//! mounted where, and what each handler answers on success.

use vstd::prelude::*;

verus! {

/// A component that is attached to the server as a whole.
#[derive(Debug, Clone, Copy, PartialEq, Eq, Structural)]
pub enum Fairing {
    /// The pool of database connections.
    Database,
    /// The cross-origin policy.
    Cors,
}

/// A path under which handlers are mounted.
#[derive(Debug, Clone, Copy, PartialEq, Eq, Structural)]
pub enum Base {
    /// `/`
    Root,
    /// `/eb`
    Api,
}

/// An HTTP method.
#[derive(Debug, Clone, Copy, PartialEq, Eq, Structural)]
pub enum Method {
    Get,
    Post,
    Put,
    Delete,
}

/// A request handler.
#[derive(Debug, Clone, Copy, PartialEq, Eq, Structural)]
pub enum Handler {
    Index,
    Register,
    Login,
    CreateInventory,
    ReadInventory,
    UpdateInventory,
    DeleteInventory,
}

/// A handler for requests that failed before they reached the service.
#[derive(Debug, Clone, Copy, PartialEq, Eq, Structural)]
pub enum Catcher {
    BadRequest,
    UnprocessableEntity,
}

/// One step in building the server.
#[derive(Debug, Clone, Copy, PartialEq, Eq, Structural)]
pub enum Stage {
    Attach(Fairing),
    Mount(Base, Handler),
    Catch(Base, Catcher),
}

impl Base {
    /// The path as text.
    pub fn path(&self) -> (text: &'static str)
        ensures
            text@ == match self {
                Base::Root => "/"@,
                Base::Api => "/eb"@,
            },
    {
        match self {
            Base::Root => "/",
            Base::Api => "/eb",
        }
    }
}

impl Handler {
    /// Whether the handler runs behind the authorization gate.
    pub open spec fn spec_protected(self) -> bool {
        self is CreateInventory || self is ReadInventory || self is UpdateInventory
            || self is DeleteInventory
    }

    /// The method that the handler answers to.
    pub open spec fn spec_method(self) -> Method {
        match self {
            Handler::Index => Method::Get,
            Handler::Register => Method::Post,
            Handler::Login => Method::Post,
            Handler::CreateInventory => Method::Post,
            Handler::ReadInventory => Method::Get,
            Handler::UpdateInventory => Method::Put,
            Handler::DeleteInventory => Method::Delete,
        }
    }

    /// The status that the handler answers with on success.
    pub open spec fn spec_success_status(self) -> u16 {
        match self {
            Handler::Index => 200,
            Handler::Register => 201,
            Handler::Login => 200,
            Handler::CreateInventory => 201,
            Handler::ReadInventory => 200,
            Handler::UpdateInventory => 200,
            Handler::DeleteInventory => 204,
        }
    }

    /// Whether the handler runs behind the authorization gate.
    pub fn protected(&self) -> (yes: bool)
        ensures
            yes == self.spec_protected(),
    {
        match self {
            Handler::CreateInventory
            | Handler::ReadInventory
            | Handler::UpdateInventory
            | Handler::DeleteInventory => true,
            _ => false,
        }
    }

    /// The method that the handler answers to.
    pub fn method(&self) -> (m: Method)
        ensures
            m == self.spec_method(),
    {
        match self {
            Handler::Index => Method::Get,
            Handler::Register => Method::Post,
            Handler::Login => Method::Post,
            Handler::CreateInventory => Method::Post,
            Handler::ReadInventory => Method::Get,
            Handler::UpdateInventory => Method::Put,
            Handler::DeleteInventory => Method::Delete,
        }
    }

    /// The status that the handler answers with on success.
    pub fn success_status(&self) -> (code: u16)
        ensures
            code == self.spec_success_status(),
    {
        match self {
            Handler::Index => 200,
            Handler::Register => 201,
            Handler::Login => 200,
            Handler::CreateInventory => 201,
            Handler::ReadInventory => 200,
            Handler::UpdateInventory => 200,
            Handler::DeleteInventory => 204,
        }
    }
}

impl Catcher {
    /// The status that the catcher stands for.
    pub fn status(&self) -> (code: u16)
        ensures
            code == match self {
                Catcher::BadRequest => 400u16,
                Catcher::UnprocessableEntity => 422u16,
            },
    {
        match self {
            Catcher::BadRequest => 400,
            Catcher::UnprocessableEntity => 422,
        }
    }
}

/// The stages of the server, in the order in which they are applied: the
/// two fairings, the index at the root, the two catchers of the API, then
/// its public handlers and its protected ones.
pub open spec fn layout() -> Seq<Stage> {
    seq![
        Stage::Attach(Fairing::Database),
        Stage::Attach(Fairing::Cors),
        Stage::Mount(Base::Root, Handler::Index),
        Stage::Catch(Base::Api, Catcher::BadRequest),
        Stage::Catch(Base::Api, Catcher::UnprocessableEntity),
        Stage::Mount(Base::Api, Handler::Register),
        Stage::Mount(Base::Api, Handler::Login),
        Stage::Mount(Base::Api, Handler::CreateInventory),
        Stage::Mount(Base::Api, Handler::ReadInventory),
        Stage::Mount(Base::Api, Handler::UpdateInventory),
        Stage::Mount(Base::Api, Handler::DeleteInventory),
    ]
}

/// Lays out the server.
pub fn rocket() -> (stages: Vec<Stage>)
    ensures
        stages@ == layout(),
{
    let mut stages: Vec<Stage> = Vec::new();
    stages.push(Stage::Attach(Fairing::Database));
    stages.push(Stage::Attach(Fairing::Cors));
    stages.push(Stage::Mount(Base::Root, Handler::Index));
    stages.push(Stage::Catch(Base::Api, Catcher::BadRequest));
    stages.push(Stage::Catch(Base::Api, Catcher::UnprocessableEntity));
    stages.push(Stage::Mount(Base::Api, Handler::Register));
    stages.push(Stage::Mount(Base::Api, Handler::Login));
    stages.push(Stage::Mount(Base::Api, Handler::CreateInventory));
    stages.push(Stage::Mount(Base::Api, Handler::ReadInventory));
    stages.push(Stage::Mount(Base::Api, Handler::UpdateInventory));
    stages.push(Stage::Mount(Base::Api, Handler::DeleteInventory));
    assert(stages@ =~= layout());
    stages
}

/// Every handler is mounted exactly once, and each protected one under
/// the API.
pub proof fn lemma_layout_mounts_each_handler_once(handler: Handler)
    ensures
        exists|i: int|
            0 <= i < layout().len() && (#[trigger] layout()[i] matches Stage::Mount(_, h) && h
                == handler),
        forall|i: int, j: int|
            0 <= i < j < layout().len() && (#[trigger] layout()[i] matches Stage::Mount(_, h) && h
                == handler) ==> !(#[trigger] layout()[j] matches Stage::Mount(_, h) && h
                == handler),
        forall|i: int|
            0 <= i < layout().len() && handler.spec_protected() && (
            #[trigger] layout()[i] matches Stage::Mount(_, h) && h == handler) ==> layout()[i]
                == Stage::Mount(Base::Api, handler),
{
    let at: int = match handler {
        Handler::Index => 2,
        Handler::Register => 5,
        Handler::Login => 6,
        Handler::CreateInventory => 7,
        Handler::ReadInventory => 8,
        Handler::UpdateInventory => 9,
        Handler::DeleteInventory => 10,
    };
    assert(layout()[at] matches Stage::Mount(_, h) && h == handler);
}

} // verus!
