use burn_import::ir::{
    ArgType, Argument, Attribute, AttributeValue, ElementType, Node, NodeType, ONNXGraph, State,
    StateType, Tensor, TensorArg, TensorData,
};
use burn_import::node::{BinaryType, BurnNode, ConstantValue, TensorValue, UnaryNodeKind};
use burn_import::ty::{scalar_kind, tensor_kind, ConversionError, ScalarKind, StateField, TensorKind, Type};

fn tensor_arg(name: &str, dim: usize) -> Argument {
    Argument { name: name.to_string(), ty: ArgType::Tensor(TensorArg { elem_type: ElementType::Float32, dim }) }
}

fn node(node_type: NodeType, inputs: Vec<Argument>, outputs: Vec<Argument>) -> Node {
    Node {
        node_type,
        name: "node1".to_string(),
        inputs,
        outputs,
        attrs: vec![],
        states: vec![],
    }
}

fn param(values: Vec<u32>, shape: Vec<usize>) -> State {
    State {
        name: "p".to_string(),
        ty: StateType::Tensor(Tensor {
            elem_type: ElementType::Float32,
            dim: shape.len(),
            shape: Some(shape),
            data: Some(TensorData::Float32(values)),
        }),
    }
}

fn arg_name(t: &Type) -> &str {
    match t {
        Type::Tensor(t) => &t.name,
        Type::Scalar(s) => &s.name,
    }
}

#[test]
fn single_add_node_graph() {
    let graph = ONNXGraph {
        nodes: vec![node(NodeType::Add, vec![tensor_arg("a", 2), tensor_arg("b", 2)], vec![tensor_arg("c", 2)])],
        inputs: vec![tensor_arg("a", 2), tensor_arg("b", 2)],
        outputs: vec![tensor_arg("c", 2)],
    };
    let g = graph.into_burn().unwrap();
    assert_eq!(g.nodes.len(), 1);
    match &g.nodes[0] {
        BurnNode::Binary(b) => {
            assert_eq!(b.binary_type, BinaryType::Add);
            assert_eq!(arg_name(&b.lhs), "a");
            assert_eq!(arg_name(&b.rhs), "b");
            assert_eq!(arg_name(&b.output), "c");
        }
        other => panic!("unexpected node {:?}", other),
    }
    assert_eq!(g.input_names, vec!["a".to_string(), "b".to_string()]);
    assert_eq!(g.output_names, vec!["c".to_string()]);
}

#[test]
fn zero_rank_float_constant_becomes_scalar() {
    let mut n = node(NodeType::Constant, vec![], vec![tensor_arg("k", 0)]);
    n.attrs.push(Attribute {
        name: "value".to_string(),
        value: AttributeValue::Tensor(Tensor {
            elem_type: ElementType::Float32,
            dim: 0,
            shape: Some(vec![]),
            data: Some(TensorData::Float32(vec![3.14f32.to_bits()])),
        }),
    });
    match burn_import::ir::ONNXGraph::convert_node(n).unwrap() {
        BurnNode::Constant(c) => {
            match c.value {
                ConstantValue::Float32(bits) => assert_eq!(f32::from_bits(bits), 3.14f32),
                other => panic!("unexpected value {:?}", other),
            }
            match c.output {
                Type::Scalar(s) => assert_eq!(s.kind, ScalarKind::Float64),
                other => panic!("unexpected output {:?}", other),
            }
        }
        other => panic!("unexpected node {:?}", other),
    }
}

#[test]
fn constant_tensor_keeps_payload() {
    let mut n = node(NodeType::Constant, vec![], vec![tensor_arg("k", 1)]);
    n.attrs.push(Attribute {
        name: "value".to_string(),
        value: AttributeValue::Tensor(Tensor {
            elem_type: ElementType::Int64,
            dim: 1,
            shape: Some(vec![3]),
            data: Some(TensorData::Int64(vec![1, 2, 3])),
        }),
    });
    match ONNXGraph::convert_node(n).unwrap() {
        BurnNode::Constant(c) => match c.value {
            ConstantValue::Tensor(t, TensorValue::Int(d)) => {
                assert_eq!(t.kind, TensorKind::Int);
                assert_eq!(t.shape, Some(vec![3]));
                assert_eq!(d.shape, vec![3]);
            }
            other => panic!("unexpected value {:?}", other),
        },
        other => panic!("unexpected node {:?}", other),
    }
}

#[test]
fn constant_without_value_is_fatal() {
    let n = node(NodeType::Constant, vec![], vec![tensor_arg("k", 0)]);
    assert_eq!(ONNXGraph::convert_node(n).unwrap_err(), ConversionError::MissingConstantValue);
}

#[test]
fn reshape_takes_shape_from_state() {
    let mut n = node(NodeType::Reshape, vec![tensor_arg("x", 2)], vec![tensor_arg("y", 2)]);
    n.states.push(State {
        name: "shape".to_string(),
        ty: StateType::Tensor(Tensor {
            elem_type: ElementType::Int64,
            dim: 1,
            shape: Some(vec![2]),
            data: Some(TensorData::Int64(vec![2, 3])),
        }),
    });
    match ONNXGraph::convert_node(n).unwrap() {
        BurnNode::Reshape(r) => {
            assert_eq!(r.shape, vec![2, 3]);
            assert_eq!(r.output.name, "y");
        }
        other => panic!("unexpected node {:?}", other),
    }
}

#[test]
fn reshape_without_state_is_fatal() {
    let n = node(NodeType::Reshape, vec![tensor_arg("x", 2)], vec![tensor_arg("y", 2)]);
    assert_eq!(ONNXGraph::convert_node(n).unwrap_err(), ConversionError::MissingState(StateField::Shape));
}

#[test]
fn linear_with_weight_only_has_no_bias() {
    let mut n = node(NodeType::Linear, vec![tensor_arg("x", 2)], vec![tensor_arg("y", 2)]);
    n.states.push(param(vec![0; 6], vec![2, 3]));
    match ONNXGraph::convert_node(n).unwrap() {
        BurnNode::Linear(l) => {
            assert!(l.bias.is_none());
            assert_eq!(l.weight.shape, vec![2, 3]);
        }
        other => panic!("unexpected node {:?}", other),
    }
}

#[test]
fn linear_and_conv_with_two_entries_have_bias() {
    let mut n = node(NodeType::Linear, vec![tensor_arg("x", 2)], vec![tensor_arg("y", 2)]);
    n.states.push(param(vec![0; 6], vec![2, 3]));
    n.states.push(param(vec![0; 3], vec![3]));
    match ONNXGraph::convert_node(n).unwrap() {
        BurnNode::Linear(l) => assert_eq!(l.bias.unwrap().shape, vec![3]),
        other => panic!("unexpected node {:?}", other),
    }
    let mut c = node(NodeType::Conv2d, vec![tensor_arg("x", 4)], vec![tensor_arg("y", 4)]);
    c.states.push(param(vec![0; 4], vec![1, 1, 2, 2]));
    c.states.push(param(vec![0; 1], vec![1]));
    match ONNXGraph::convert_node(c).unwrap() {
        BurnNode::Conv2d(n) => assert!(n.bias.is_some()),
        other => panic!("unexpected node {:?}", other),
    }
}

#[test]
fn batch_norm_needs_four_entries() {
    let mut n = node(NodeType::BatchNormalization, vec![tensor_arg("x", 4)], vec![tensor_arg("y", 4)]);
    for _ in 0..3 {
        n.states.push(param(vec![0; 2], vec![2]));
    }
    assert_eq!(
        ONNXGraph::convert_node(n).unwrap_err(),
        ConversionError::MissingState(StateField::RunningVar)
    );
    let mut n = node(NodeType::BatchNormalization, vec![tensor_arg("x", 4)], vec![tensor_arg("y", 4)]);
    for _ in 0..4 {
        n.states.push(param(vec![0; 2], vec![2]));
    }
    match ONNXGraph::convert_node(n).unwrap() {
        BurnNode::BatchNorm(b) => assert_eq!(b.dim, 2),
        other => panic!("unexpected node {:?}", other),
    }
}

#[test]
fn unsupported_operator_is_fatal() {
    let graph = ONNXGraph {
        nodes: vec![
            node(NodeType::Relu, vec![tensor_arg("a", 2)], vec![tensor_arg("b", 2)]),
            node(NodeType::Softmax, vec![tensor_arg("b", 2)], vec![tensor_arg("c", 2)]),
        ],
        inputs: vec![tensor_arg("a", 2)],
        outputs: vec![tensor_arg("c", 2)],
    };
    assert_eq!(graph.into_burn().unwrap_err(), ConversionError::UnsupportedNode(NodeType::Softmax));
}

#[test]
fn every_supported_kind_keeps_output_name() {
    let plain = [
        NodeType::Add,
        NodeType::Sub,
        NodeType::Mul,
        NodeType::Div,
        NodeType::Equal,
        NodeType::MatMul,
        NodeType::Relu,
        NodeType::Sigmoid,
        NodeType::Transpose,
        NodeType::Cast,
        NodeType::Dropout,
        NodeType::MaxPool2d,
        NodeType::GlobalAveragePool,
        NodeType::Flatten,
        NodeType::LogSoftmax,
        NodeType::Concat,
    ];
    for kind in plain {
        let n = node(kind, vec![tensor_arg("x", 3), tensor_arg("z", 3)], vec![tensor_arg("out", 3)]);
        let t = ONNXGraph::convert_node(n).unwrap();
        let name = match &t {
            BurnNode::Binary(b) => arg_name(&b.output).to_string(),
            BurnNode::Unary(u) => arg_name(&u.output).to_string(),
            BurnNode::Matmul(m) => m.output.name.clone(),
            BurnNode::Dropout(d) => d.output.name.clone(),
            BurnNode::MaxPool2d(m) => m.output.name.clone(),
            BurnNode::GlobalAvgPool(g) => g.output.name.clone(),
            BurnNode::Concat(c) => c.output.name.clone(),
            other => panic!("unexpected node {:?}", other),
        };
        assert_eq!(name, "out");
    }
}

#[test]
fn axis_attributes_configure_unary_nodes() {
    let mut n = node(NodeType::LogSoftmax, vec![tensor_arg("x", 3)], vec![tensor_arg("y", 3)]);
    n.attrs.push(Attribute { name: "axis".to_string(), value: AttributeValue::Int64(-2) });
    match ONNXGraph::convert_node(n).unwrap() {
        BurnNode::Unary(u) => assert_eq!(u.kind, UnaryNodeKind::LogSoftmax { dim: 1 }),
        other => panic!("unexpected node {:?}", other),
    }
    let n = node(NodeType::Flatten, vec![tensor_arg("x", 4)], vec![tensor_arg("y", 2)]);
    match ONNXGraph::convert_node(n).unwrap() {
        BurnNode::Unary(u) => assert_eq!(u.kind, UnaryNodeKind::Flatten { start_dim: 1, end_dim: 3 }),
        other => panic!("unexpected node {:?}", other),
    }
}

#[test]
fn argument_conversions() {
    let scalar = tensor_arg("s", 0);
    match scalar.to_type().unwrap() {
        Type::Scalar(s) => assert_eq!(s.kind, ScalarKind::Float64),
        other => panic!("unexpected type {:?}", other),
    }
    let shape = Argument { name: "sh".to_string(), ty: ArgType::Shape(2) };
    assert_eq!(shape.to_type().unwrap_err(), ConversionError::ShapeArgument);
    assert_eq!(shape.to_tensor_type().unwrap_err(), ConversionError::ExpectedTensor);
    let half = Argument { name: "h".to_string(), ty: ArgType::Scalar(ElementType::Float16) };
    assert_eq!(half.to_type().unwrap_err(), ConversionError::UnsupportedScalar(ElementType::Float16));
    let t = tensor_arg("t", 3).to_tensor_type().unwrap();
    assert_eq!((t.name.as_str(), t.dim, t.kind), ("t", 3, TensorKind::Float));
}

#[test]
fn translation_is_repeatable() {
    let make = || ONNXGraph {
        nodes: vec![node(NodeType::Add, vec![tensor_arg("a", 2), tensor_arg("b", 2)], vec![tensor_arg("c", 2)])],
        inputs: vec![tensor_arg("a", 2), tensor_arg("b", 2)],
        outputs: vec![tensor_arg("c", 2)],
    };
    let first = format!("{:?}", make().into_burn().unwrap());
    let second = format!("{:?}", make().into_burn().unwrap());
    assert_eq!(first, second);
}

fn constant_with(value: AttributeValue) -> Node {
    let mut n = node(NodeType::Constant, vec![], vec![tensor_arg("k", 1)]);
    n.attrs.push(Attribute { name: "value".to_string(), value });
    n
}

fn tensor_value(elem_type: ElementType, dim: usize, shape: Option<Vec<usize>>, data: Option<TensorData>) -> AttributeValue {
    AttributeValue::Tensor(Tensor { elem_type, dim, shape, data })
}

#[test]
fn each_conversion_error_has_its_input() {
    let err = |n: Node| ONNXGraph::convert_node(n).unwrap_err();
    assert_eq!(err(node(NodeType::Add, vec![tensor_arg("a", 1)], vec![tensor_arg("c", 1)])), ConversionError::MissingInput(1));
    assert_eq!(err(node(NodeType::Relu, vec![tensor_arg("a", 1)], vec![])), ConversionError::MissingOutput);
    assert_eq!(
        err(constant_with(AttributeValue::String("x".to_string()))),
        ConversionError::UnsupportedConstantValue
    );
    assert_eq!(
        err(constant_with(tensor_value(ElementType::String, 0, None, Some(TensorData::String(vec!["s".to_string()]))))),
        ConversionError::UnsupportedZeroDimConstant(ElementType::String)
    );
    assert_eq!(
        err(constant_with(tensor_value(ElementType::Bool, 1, Some(vec![1]), Some(TensorData::Bool(vec![true]))))),
        ConversionError::UnsupportedConstantTensor(ElementType::Bool)
    );
    assert_eq!(
        err(constant_with(tensor_value(ElementType::Int64, 0, None, Some(TensorData::Int64(vec![]))))),
        ConversionError::EmptyConstant
    );
    assert_eq!(
        err(constant_with(tensor_value(ElementType::Float32, 1, Some(vec![1]), None))),
        ConversionError::MissingTensorData
    );
    assert_eq!(
        err(constant_with(tensor_value(ElementType::Float32, 1, None, Some(TensorData::Float32(vec![0]))))),
        ConversionError::MissingTensorShape
    );
    let mut reshape = node(NodeType::Reshape, vec![tensor_arg("x", 2)], vec![tensor_arg("y", 2)]);
    reshape.states.push(param(vec![0, 0], vec![2]));
    assert_eq!(err(reshape), ConversionError::UnsupportedParamData(ElementType::Float32));
    let mut linear = node(NodeType::Linear, vec![tensor_arg("x", 2)], vec![tensor_arg("y", 2)]);
    linear.states.push(State {
        name: "w".to_string(),
        ty: StateType::Tensor(Tensor {
            elem_type: ElementType::Bool,
            dim: 1,
            shape: Some(vec![1]),
            data: Some(TensorData::Bool(vec![true])),
        }),
    });
    assert_eq!(err(linear), ConversionError::UnsupportedParamData(ElementType::Bool));
    let linear = node(NodeType::Linear, vec![tensor_arg("x", 2)], vec![tensor_arg("y", 2)]);
    assert_eq!(err(linear), ConversionError::MissingState(StateField::Weight));
    let mut concat = node(NodeType::Concat, vec![tensor_arg("x", 2)], vec![tensor_arg("y", 2)]);
    concat.attrs.push(Attribute { name: "axis".to_string(), value: AttributeValue::Int64s(vec![0]) });
    assert_eq!(err(concat), ConversionError::InvalidAttribute);
    let mut concat = node(NodeType::Concat, vec![tensor_arg("x", 2)], vec![tensor_arg("y", 2)]);
    concat.attrs.push(Attribute { name: "axis".to_string(), value: AttributeValue::Int64(2) });
    assert_eq!(err(concat), ConversionError::InvalidAxis);
    assert_eq!(
        err(node(NodeType::Flatten, vec![tensor_arg("x", 1)], vec![tensor_arg("y", 1)])),
        ConversionError::InvalidRank
    );
    assert_eq!(
        err(node(NodeType::BatchNormalization, vec![tensor_arg("x", 1)], vec![tensor_arg("y", 1)])),
        ConversionError::InvalidRank
    );
    let mut bn = node(NodeType::BatchNormalization, vec![tensor_arg("x", 4)], vec![tensor_arg("y", 4)]);
    bn.states.push(param(vec![0], vec![1]));
    assert_eq!(err(bn), ConversionError::MissingState(StateField::Beta));
}

#[test]
fn element_kinds() {
    assert_eq!(tensor_kind(ElementType::Float64), Ok(TensorKind::Float));
    assert_eq!(tensor_kind(ElementType::Int32), Ok(TensorKind::Int));
    assert_eq!(tensor_kind(ElementType::String), Err(ConversionError::UnsupportedTensor(ElementType::String)));
    assert_eq!(scalar_kind(ElementType::Bool), Ok(ScalarKind::Bool));
    assert_eq!(scalar_kind(ElementType::String), Err(ConversionError::UnsupportedScalar(ElementType::String)));
}
