//! The one geometric fact the presentation layer needs from the core: a
//! port's position is a deterministic function of its node's rectangle and
//! the port's index.

use vstd::prelude::*;

use crate::import::{clamp_i64, spec_scaled};
use crate::model::PortModel;
use crate::node::{Node, NodeModel, Point};
use crate::ops::port_index;
use crate::seqs::{first_where, lemma_first_where};

verus! {

/// Where the named port of a node sits: inputs on the left edge, outputs on
/// the right, stacked 25 apart below a 45-high header.
pub open spec fn port_position_spec(n: NodeModel, port_id: Seq<char>, is_input: bool) -> Option<
    Point,
> {
    let ports = if is_input {
        n.inputs
    } else {
        n.outputs
    };
    let i = port_index(ports, port_id);
    if i < ports.len() {
        Some(
            Point {
                x: if is_input {
                    n.position.x
                } else {
                    clamp_i64(n.position.x + n.size.w) as i64
                },
                y: clamp_i64(n.position.y + 45 + spec_scaled(i, 25)) as i64,
            },
        )
    } else {
        None
    }
}

/// Stateless geometry of the graph for a rendering layer.
pub struct GraphRenderer;

impl GraphRenderer {
    /// The canvas position of the named port, or nothing when the node has
    /// no such port in that direction.
    pub fn get_port_position(node: &Node, port_id: &str, is_input: bool) -> (r: Option<Point>)
        ensures
            r == port_position_spec(node@, port_id@, is_input),
    {
        let ports = if is_input {
            &node.inputs
        } else {
            &node.outputs
        };
        let ghost views = ports@.map_values(|p: crate::model::Port| p@);
        let ghost pred = |p: PortModel| p.id == port_id@;
        proof {
            lemma_first_where(views, pred);
        }
        let n = ports.len();
        for i in 0..n
            invariant
                n == ports@.len(),
                views == ports@.map_values(|p: crate::model::Port| p@),
                views == (if is_input {
                    node@.inputs
                } else {
                    node@.outputs
                }),
                pred == (|p: PortModel| p.id == port_id@),
                first_where(views, pred) >= i,
        {
            if crate::model::str_eq(ports[i].id.as_str(), port_id) {
                proof {
                    lemma_first_where(views, pred);
                    assert(pred(views[i as int]));
                }
                let x = if is_input {
                    node.position.x
                } else {
                    crate::import::sat_add64(node.position.x, node.size.w)
                };
                let y = crate::import::sat_add64(
                    crate::import::sat_add64(node.position.y, 45),
                    crate::import::scaled_index(i, 25),
                );
                return Some(Point { x, y });
            }
            proof {
                lemma_first_where(views, pred);
                assert(!pred(views[i as int]));
            }
        }
        proof {
            lemma_first_where(views, pred);
        }
        None
    }
}

} // verus!
