use tasks::data::Data;
use tasks::tarefas::{
    adicionar_tarefa, atualizar_tarefa, contem_id, excluir_tarefa, Alteracao, Status, Tarefa,
};

#[test]
fn test_adicionar_tarefa() {
    let mut tarefas: Vec<Tarefa> = Vec::new();

    // add one entry
    let tarefa = Tarefa {
        id: "1".to_string(),
        titulo: "Tarefa Teste".to_string(),
        prioridade: 3,
        data_vencimento: Data::nova(2024, 12, 1).expect("Data inválida"),
        status: Status::Pendente,
    };
    tarefas.push(tarefa);

    // the entry is there
    assert_eq!(tarefas.len(), 1);
    assert_eq!(tarefas[0].titulo, "Tarefa Teste");
}

#[test]
fn adicionar_gera_id_fresco() {
    let mut tarefas: Vec<Tarefa> = Vec::new();
    let data = Data::nova(2025, 1, 15).unwrap();

    let id1 = adicionar_tarefa(&mut tarefas, "Primeira".to_string(), 2, data).unwrap();
    let id2 = adicionar_tarefa(&mut tarefas, "Segunda".to_string(), 4, data).unwrap();

    // drawn identifiers are 36 characters and never collide with stored ones
    assert_eq!(id1.chars().count(), 36);
    assert_eq!(id2.chars().count(), 36);
    assert_ne!(id1, id2);

    assert_eq!(tarefas.len(), 2);
    assert_eq!(tarefas[0].id, id1);
    assert_eq!(tarefas[0].titulo, "Primeira");
    assert_eq!(tarefas[0].prioridade, 2);
    assert!(matches!(tarefas[0].status, Status::Pendente));
    assert_eq!(tarefas[1].id, id2);

    assert!(contem_id(&tarefas, &id1));
    assert!(contem_id(&tarefas, &id2));
    assert!(!contem_id(&tarefas, &"ausente".to_string()));
}

#[test]
fn adicionar_ajusta_prioridade() {
    let mut tarefas: Vec<Tarefa> = Vec::new();
    let data = Data::nova(2025, 6, 30).unwrap();

    adicionar_tarefa(&mut tarefas, "Baixa".to_string(), 0, data).unwrap();
    adicionar_tarefa(&mut tarefas, "Alta".to_string(), 10, data).unwrap();

    assert_eq!(tarefas[0].prioridade, 1);
    assert_eq!(tarefas[1].prioridade, 5);
}

#[test]
fn atualizar_cada_campo() {
    let mut tarefas: Vec<Tarefa> = Vec::new();
    let data = Data::nova(2024, 12, 1).unwrap();
    let id = adicionar_tarefa(&mut tarefas, "Original".to_string(), 3, data).unwrap();

    assert!(atualizar_tarefa(&mut tarefas, &id, Alteracao::Titulo("Novo".to_string())));
    assert_eq!(tarefas[0].titulo, "Novo");

    assert!(atualizar_tarefa(&mut tarefas, &id, Alteracao::Prioridade(9)));
    assert_eq!(tarefas[0].prioridade, 5);

    let nova_data = Data::nova(2025, 2, 28).unwrap();
    assert!(atualizar_tarefa(&mut tarefas, &id, Alteracao::DataVencimento(nova_data)));
    assert_eq!(tarefas[0].data_vencimento, nova_data);

    assert!(atualizar_tarefa(&mut tarefas, &id, Alteracao::Status(Status::Concluida)));
    assert!(matches!(tarefas[0].status, Status::Concluida));

    // everything else stayed put
    assert_eq!(tarefas[0].id, id);
    assert_eq!(tarefas[0].titulo, "Novo");
    assert_eq!(tarefas.len(), 1);
}

#[test]
fn atualizar_id_ausente() {
    let mut tarefas: Vec<Tarefa> = Vec::new();
    let data = Data::nova(2024, 12, 1).unwrap();
    adicionar_tarefa(&mut tarefas, "Unica".to_string(), 3, data).unwrap();

    let ausente = "nenhum".to_string();
    assert!(!atualizar_tarefa(&mut tarefas, &ausente, Alteracao::Prioridade(1)));
    assert_eq!(tarefas[0].prioridade, 3);
}

#[test]
fn excluir_remove_todas_com_o_id() {
    let mut tarefas: Vec<Tarefa> = Vec::new();
    let data = Data::nova(2024, 12, 1).unwrap();
    let id1 = adicionar_tarefa(&mut tarefas, "Fica".to_string(), 1, data).unwrap();
    let id2 = adicionar_tarefa(&mut tarefas, "Sai".to_string(), 2, data).unwrap();

    assert!(excluir_tarefa(&mut tarefas, &id2));
    assert_eq!(tarefas.len(), 1);
    assert_eq!(tarefas[0].id, id1);

    // removing an absent id reports false and keeps the list
    assert!(!excluir_tarefa(&mut tarefas, &id2));
    assert_eq!(tarefas.len(), 1);
}

#[test]
fn datas_validas_e_invalidas() {
    assert!(Data::nova(2024, 2, 29).is_some()); // leap year
    assert!(Data::nova(2023, 2, 29).is_none());
    assert!(Data::nova(1900, 2, 29).is_none()); // century, not leap
    assert!(Data::nova(2000, 2, 29).is_some()); // quadricentennial, leap
    assert!(Data::nova(2024, 4, 31).is_none());
    assert!(Data::nova(2024, 12, 31).is_some());
    assert!(Data::nova(2024, 0, 1).is_none());
    assert!(Data::nova(2024, 13, 1).is_none());
    assert!(Data::nova(2024, 1, 0).is_none());
}

#[test]
fn nomes_de_status() {
    assert_eq!(Status::Pendente.nome(), "Pendente");
    assert_eq!(Status::EmProgresso.nome(), "Em Progresso");
    assert_eq!(Status::Concluida.nome(), "Concluída");
}
