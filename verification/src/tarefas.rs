//! The agenda: a list of dated entries keyed by a drawn identifier, as
//! the interactive front end keeps them. The entry point draws a fresh
//! identifier, refusing to store a colliding one; updates rewrite one
//! field of the first entry under an identifier; removal drops every
//! entry under it.

use vstd::prelude::*;

use crate::data::Data;
use crate::task::{clamp_priority, clamped_priority, PRIORITY_MAX, PRIORITY_MIN};

verus! {

/// How many identifier draws are attempted before giving up; collisions
/// are all but impossible, so one draw is the expected case.
pub const MAX_SORTEIOS: usize = 16;

/// The lifecycle state of an agenda entry.
#[derive(Clone, Copy, Debug, PartialEq, Eq, Structural)]
pub enum Status {
    Pendente,
    EmProgresso,
    Concluida,
}

impl Status {
    /// The label the interactive listing prints for this state.
    pub fn nome(&self) -> (r: &'static str)
        ensures
            r@ == match *self {
                Status::Pendente => "Pendente"@,
                Status::EmProgresso => "Em Progresso"@,
                Status::Concluida => "Concluída"@,
            },
    {
        match self {
            Status::Pendente => "Pendente",
            Status::EmProgresso => "Em Progresso",
            Status::Concluida => "Concluída",
        }
    }
}

/// One agenda entry.
#[derive(Debug)]
pub struct Tarefa {
    pub id: String,
    pub titulo: String,
    pub prioridade: u8,
    pub data_vencimento: Data,
    pub status: Status,
}

impl Tarefa {
    /// What every stored entry satisfies: an in-range priority and a real
    /// calendar date.
    pub open spec fn valida(self) -> bool {
        &&& PRIORITY_MIN <= self.prioridade <= PRIORITY_MAX
        &&& self.data_vencimento.valida()
    }
}

/// One requested change to an entry, as the interactive update menu
/// offers them.
pub enum Alteracao {
    Titulo(String),
    Prioridade(u8),
    DataVencimento(Data),
    Status(Status),
}

/// The entry a change leaves: the chosen field replaced (the priority
/// clamped), the rest kept.
pub open spec fn tarefa_alterada(t: Tarefa, alteracao: Alteracao) -> Tarefa {
    match alteracao {
        Alteracao::Titulo(novo) => Tarefa {
            id: t.id,
            titulo: novo,
            prioridade: t.prioridade,
            data_vencimento: t.data_vencimento,
            status: t.status,
        },
        Alteracao::Prioridade(p) => Tarefa {
            id: t.id,
            titulo: t.titulo,
            prioridade: clamped_priority(p),
            data_vencimento: t.data_vencimento,
            status: t.status,
        },
        Alteracao::DataVencimento(d) => Tarefa {
            id: t.id,
            titulo: t.titulo,
            prioridade: t.prioridade,
            data_vencimento: d,
            status: t.status,
        },
        Alteracao::Status(s) => Tarefa {
            id: t.id,
            titulo: t.titulo,
            prioridade: t.prioridade,
            data_vencimento: t.data_vencimento,
            status: s,
        },
    }
}

/// Relies on uuid's `Uuid::new_v4` and its hyphenated `Display` form: a
/// freshly drawn random identifier rendered as 36 characters. Nothing
/// further is promised of the drawn value.
#[verifier::external_body]
fn novo_id() -> (r: String)
    ensures
        r@.len() == 36,
{
    uuid::Uuid::new_v4().to_string()
}

/// Where the first entry under `id` sits, if anywhere.
fn indice_de(tarefas: &Vec<Tarefa>, id: &String) -> (r: Option<usize>)
    ensures
        match r {
            Some(i) => {
                &&& i < tarefas@.len()
                &&& tarefas@[i as int].id@ == id@
                &&& forall|k: int| 0 <= k < i ==> (#[trigger] tarefas@[k]).id@ != id@
            },
            None => forall|k: int|
                0 <= k < tarefas@.len() ==> (#[trigger] tarefas@[k]).id@ != id@,
        },
{
    let mut i: usize = 0;
    while i < tarefas.len()
        invariant
            i <= tarefas@.len(),
            forall|k: int| 0 <= k < i ==> (#[trigger] tarefas@[k]).id@ != id@,
        decreases tarefas@.len() - i,
    {
        if tarefas[i].id == *id {
            return Some(i);
        }
        i += 1;
    }
    None
}

/// Whether some entry already carries `id`.
pub fn contem_id(tarefas: &Vec<Tarefa>, id: &String) -> (r: bool)
    ensures
        r <==> exists|i: int| 0 <= i < tarefas@.len() && (#[trigger] tarefas@[i]).id@ == id@,
{
    match indice_de(tarefas, id) {
        Some(i) => {
            proof {
                assert(tarefas@[i as int].id@ == id@);
            }
            true
        },
        None => false,
    }
}

/// Appends one pending entry with the given fields under a freshly drawn
/// identifier, checked against every stored one and redrawn on a
/// collision; the requested priority is clamped. Gives the stored
/// identifier back, or leaves the list untouched when no fresh
/// identifier came up within the drawing budget. While a stored
/// 36-character id could collide with every draw, a list holding none —
/// the empty list above all — cannot, so there success is owed.
pub fn adicionar_tarefa(
    tarefas: &mut Vec<Tarefa>,
    titulo: String,
    prioridade: u8,
    data_vencimento: Data,
) -> (r: Option<String>)
    requires
        data_vencimento.valida(),
    ensures
        (forall|i: int|
            0 <= i < old(tarefas)@.len() ==> (#[trigger] old(tarefas)@[i]).id@.len() != 36)
            ==> r is Some,
        match r {
            Some(id) => {
                &&& id@.len() == 36
                &&& forall|i: int|
                    0 <= i < old(tarefas)@.len() ==> (#[trigger] old(tarefas)@[i]).id@ != id@
                &&& final(tarefas)@ == old(tarefas)@.push(
                    (Tarefa {
                        id: id,
                        titulo: titulo,
                        prioridade: clamped_priority(prioridade),
                        data_vencimento: data_vencimento,
                        status: Status::Pendente,
                    }),
                )
                &&& final(tarefas)@.last().valida()
            },
            None => final(tarefas)@ == old(tarefas)@,
        },
{
    let mut fresco: Option<String> = None;
    let mut tentativas: usize = 0;
    while tentativas < MAX_SORTEIOS && fresco.is_none()
        invariant
            fresco matches Some(id) ==> id@.len() == 36 && forall|i: int|
                0 <= i < tarefas@.len() ==> (#[trigger] tarefas@[i]).id@ != id@,
            tentativas > 0 && (forall|i: int|
                0 <= i < tarefas@.len() ==> (#[trigger] tarefas@[i]).id@.len() != 36)
                ==> fresco is Some,
        decreases MAX_SORTEIOS - tentativas,
    {
        let candidato = novo_id();
        if !contem_id(tarefas, &candidato) {
            fresco = Some(candidato);
        }
        tentativas += 1;
    }
    match fresco {
        Some(id) => {
            let guardado = id.clone();
            tarefas.push(
                Tarefa {
                    id,
                    titulo,
                    prioridade: clamp_priority(prioridade),
                    data_vencimento,
                    status: Status::Pendente,
                },
            );
            Some(guardado)
        },
        None => None,
    }
}

/// Rewrites one field of the first entry under `id`, reporting whether
/// such an entry was found; everything else is left untouched.
pub fn atualizar_tarefa(tarefas: &mut Vec<Tarefa>, id: &String, alteracao: Alteracao) -> (r: bool)
    requires
        (alteracao matches Alteracao::DataVencimento(d) ==> d.valida()),
    ensures
        r <==> exists|i: int|
            0 <= i < old(tarefas)@.len() && (#[trigger] old(tarefas)@[i]).id@ == id@,
        (forall|k: int| 0 <= k < old(tarefas)@.len() ==> (#[trigger] old(tarefas)@[k]).valida())
            ==> forall|k: int|
            0 <= k < final(tarefas)@.len() ==> (#[trigger] final(tarefas)@[k]).valida(),
        r ==> exists|i: int|
            {
                &&& 0 <= i < old(tarefas)@.len()
                &&& (#[trigger] old(tarefas)@[i]).id@ == id@
                &&& forall|k: int| 0 <= k < i ==> old(tarefas)@[k].id@ != id@
                &&& final(tarefas)@ == old(tarefas)@.update(
                    i,
                    tarefa_alterada(old(tarefas)@[i], alteracao),
                )
            },
        !r ==> final(tarefas)@ == old(tarefas)@,
{
    match indice_de(tarefas, id) {
        None => false,
        Some(i) => {
            let ghost s0 = tarefas@;
            let velha = tarefas.remove(i);
            let nova = match alteracao {
                Alteracao::Titulo(novo) => Tarefa {
                    id: velha.id,
                    titulo: novo,
                    prioridade: velha.prioridade,
                    data_vencimento: velha.data_vencimento,
                    status: velha.status,
                },
                Alteracao::Prioridade(p) => Tarefa {
                    id: velha.id,
                    titulo: velha.titulo,
                    prioridade: clamp_priority(p),
                    data_vencimento: velha.data_vencimento,
                    status: velha.status,
                },
                Alteracao::DataVencimento(d) => Tarefa {
                    id: velha.id,
                    titulo: velha.titulo,
                    prioridade: velha.prioridade,
                    data_vencimento: d,
                    status: velha.status,
                },
                Alteracao::Status(s) => Tarefa {
                    id: velha.id,
                    titulo: velha.titulo,
                    prioridade: velha.prioridade,
                    data_vencimento: velha.data_vencimento,
                    status: s,
                },
            };
            tarefas.insert(i, nova);
            proof {
                assert(tarefas@ =~= s0.update(i as int, tarefa_alterada(s0[i as int], alteracao)));
                assert(s0[i as int].id@ == id@);
            }
            true
        },
    }
}

/// The entries of `s` that do not carry `id`, in their kept order.
pub open spec fn sem_id(s: Seq<Tarefa>, id: Seq<char>) -> Seq<Tarefa> {
    s.filter(|t: Tarefa| t.id@ != id)
}

/// Drops every entry under `id`, keeping the rest in order, and reports
/// whether any entry was dropped.
pub fn excluir_tarefa(tarefas: &mut Vec<Tarefa>, id: &String) -> (r: bool)
    ensures
        final(tarefas)@ == sem_id(old(tarefas)@, id@),
        r <==> exists|i: int|
            0 <= i < old(tarefas)@.len() && (#[trigger] old(tarefas)@[i]).id@ == id@,
{
    let achou = contem_id(tarefas, id);
    let mut restantes: Vec<Tarefa> = Vec::new();
    let mut i: usize = 0;
    while i < tarefas.len()
        invariant
            i <= tarefas@.len(),
            restantes@ == sem_id(tarefas@.take(i as int), id@),
        decreases tarefas@.len() - i,
    {
        proof {
            assert(tarefas@.take(i as int + 1).drop_last() =~= tarefas@.take(i as int));
            assert(tarefas@.take(i as int + 1).last() == tarefas@[i as int]);
        }
        let t = &tarefas[i];
        if !(t.id == *id) {
            restantes.push(
                Tarefa {
                    id: t.id.clone(),
                    titulo: t.titulo.clone(),
                    prioridade: t.prioridade,
                    data_vencimento: t.data_vencimento,
                    status: t.status,
                },
            );
        }
        proof {
            reveal_with_fuel(Seq::<Tarefa>::filter, 2);
            if tarefas@[i as int].id@ == id@ {
                assert(sem_id(tarefas@.take(i as int + 1), id@) =~= sem_id(
                    tarefas@.take(i as int),
                    id@,
                ));
            } else {
                assert(sem_id(tarefas@.take(i as int + 1), id@) =~= sem_id(
                    tarefas@.take(i as int),
                    id@,
                ).push(tarefas@[i as int]));
            }
        }
        i += 1;
    }
    proof {
        assert(tarefas@.take(tarefas@.len() as int) =~= tarefas@);
    }
    *tarefas = restantes;
    achou
}

} // verus!
