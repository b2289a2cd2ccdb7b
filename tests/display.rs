use chat_tui::display::{
    cap_column, cursor_position, format_elapsed_compact, spinner_display, spinner_frame_index,
    truncate_with_ellipsis,
};
use chat_tui::panels::{graph_data, sort_agents, AgentRow, GraphEdge, GraphNode, GRAPH_EDGE_LIMIT};

#[test]
fn truncation_cases() {
    assert_eq!(truncate_with_ellipsis("hello world", 8), "hello...");
    assert_eq!(truncate_with_ellipsis("hello world", 3), "...");
    assert_eq!(truncate_with_ellipsis("hello world", 2), "..");
    assert_eq!(truncate_with_ellipsis("hello", 0), "");
    assert_eq!(truncate_with_ellipsis("hello", 5), "hello");
    assert_eq!(truncate_with_ellipsis("héllo wörld", 6), "hél...");
}

#[test]
fn elapsed_text_cases() {
    assert_eq!(format_elapsed_compact(3_600_000), "1h");
    assert_eq!(format_elapsed_compact(3_900_000), "1h5m");
    assert_eq!(format_elapsed_compact(120_000), "2m");
    assert_eq!(format_elapsed_compact(127_000), "2m7s");
    assert_eq!(format_elapsed_compact(3_456), "3.4s");
    assert_eq!(format_elapsed_compact(1_000), "1.0s");
    assert_eq!(format_elapsed_compact(250), "250ms");
    assert_eq!(format_elapsed_compact(0), "0ms");
}

#[test]
fn spinner_frames() {
    assert_eq!(spinner_frame_index(0), 0);
    assert_eq!(spinner_frame_index(159), 0);
    assert_eq!(spinner_frame_index(160), 1);
    assert_eq!(spinner_frame_index(640), 0);
    assert_eq!(spinner_display(0), ".  ");
    assert_eq!(spinner_display(160), ".. ");
    assert_eq!(spinner_display(320), "...");
    assert_eq!(spinner_display(480), ".. ");
}

#[test]
fn cursor_columns() {
    assert_eq!(cursor_position("ab\ncd", 10), (2, 0));
    assert_eq!(cursor_position("abc\n", 10), (0, 0));
    assert_eq!(cursor_position("abc", 1), (0, 0));
    assert_eq!(cursor_position("abc", 0), (0, 0));
    assert_eq!(cursor_position("abcdef", 4), (3, 0));
    assert_eq!(cursor_position("x\n你好", 10), (4, 0));
}

fn row(name: &str, runs: u64) -> AgentRow {
    AgentRow::new(name.to_string(), Some(5), runs, 0)
}

#[test]
fn agents_busiest_first_then_by_name() {
    let rows = vec![row("b", 1), row("a", 1), row("z", 3), row("c", 0)];
    let sorted = sort_agents(rows);
    let names: Vec<&str> = sorted.iter().map(|r| r.name.as_str()).collect();
    assert_eq!(names, vec!["z", "a", "b", "c"]);
}

#[test]
fn agent_last_seen_positive_only() {
    assert_eq!(AgentRow::new("a".to_string(), Some(0), 0, 2).last_seen_ms, None);
    assert_eq!(AgentRow::new("a".to_string(), Some(-4), 0, 2).last_seen_ms, None);
    assert_eq!(AgentRow::new("a".to_string(), Some(17), 0, 2).last_seen_ms, Some(17));
    assert_eq!(AgentRow::new("a".to_string(), None, 0, 2).last_seen_ms, None);
}

fn edges(n: usize) -> Vec<GraphEdge> {
    (0..n)
        .map(|i| GraphEdge {
            from: format!("n{}", i),
            to: "x".to_string(),
            count: i as i64,
        })
        .collect()
}

#[test]
fn graph_edges_capped() {
    let nodes = vec![GraphNode {
        id: "x".to_string(),
        kind: "agent".to_string(),
    }];
    let g = graph_data(nodes, edges(GRAPH_EDGE_LIMIT + 5));
    assert_eq!(g.nodes.len(), 1);
    assert_eq!(g.edges.len(), 120);
    assert_eq!(g.omitted_edges, 5);
    assert_eq!(g.edges[119].count, 119);
    let small = graph_data(Vec::new(), edges(3));
    assert_eq!(small.edges.len(), 3);
    assert_eq!(small.omitted_edges, 0);
}

#[test]
fn column_capping() {
    assert_eq!(cap_column(5, 10), 5);
    assert_eq!(cap_column(9, 10), 9);
    assert_eq!(cap_column(12, 10), 9);
    assert_eq!(cap_column(3, 1), 0);
    assert_eq!(cap_column(0, 0), 0);
}

#[test]
fn agent_ties_keep_input_order() {
    let rows = vec![
        AgentRow::new("a".to_string(), Some(1), 2, 10),
        AgentRow::new("b".to_string(), None, 5, 0),
        AgentRow::new("a".to_string(), Some(2), 2, 20),
        AgentRow::new("a".to_string(), Some(3), 2, 30),
    ];
    let sorted = sort_agents(rows);
    let recent: Vec<usize> = sorted.iter().map(|r| r.recent_conversations).collect();
    assert_eq!(recent, vec![0, 10, 20, 30]);
}
