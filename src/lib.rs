//! Composable stream transformers: Mealy-style circuits that map each input
//! to one output and carry on as their own continuation, with the category,
//! arrow and choice combinators over them; and the functor, applicative and
//! monad operations on `Option` and `Vec`.
mod func;
mod either;
mod stream;
mod circuit;
mod monad;
mod option;
mod vec;

pub use func::{eval, eval2, exact_clone, pure_fn, pure_fn2, running, scan};
pub use either::Either;
pub use stream::{firsts, interleave, lefts, merge, rights, seconds, tags, zip};
pub use circuit::{
    arrow, branch, chain, identity, law_associative, law_identity, law_split_routes, Accum, Arrow,
    ArrowChoice, Both, Category, Circuit, CircuitFamily, Echo, FanIn, Fanout, Identity, Lifted,
    Split, Then,
};
pub use monad::{
    apply_each, zip_with, Applicative, ApplicativeFamily, Functor, FunctorFamily, Monad,
    MonadFamily,
};
pub use option::OptionFamily;
pub use vec::VecFamily;
