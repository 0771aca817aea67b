//! A feed-forward neural network with sigmoid activations, trained by online
//! backpropagation with momentum.

pub mod base;
pub mod layer;
pub mod network;
pub mod neuron;
pub mod trainer;

pub use base::Algorithm;
pub use base::Sigmoid;
pub use base::Signal;
pub use layer::Layer;
pub use layer::SigmoidLayer;
pub use network::NeuronNetwork;
pub use network::SigmoidNetwork;
pub use neuron::Neuron;
pub use neuron::SigmoidNeuron;
pub use trainer::SigmoidNetworkTrainer;
pub use trainer::Trainer;
